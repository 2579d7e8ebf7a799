use ryu_expenses::db::SqlValue;
use ryu_expenses::models::{Expense, ExpenseFilters, ExpensePatch, NewExpense};
use ryu_expenses::store::{
    correction, count_to_usize, read_back, summary_filters, summary_outcome, delete_values, deletion_outcome, effective_limit, first_row,
    insert_values, list_query, merge_patch, select_values, update_values, ExpenseStore,
    StoreError, LIST_ORDER, LIST_SELECT,
};
use ryu_expenses::validation::ValidationError;

fn coffee() -> NewExpense {
    NewExpense {
        spent_on: "2026-08-24".to_owned(),
        merchant: "Morning Coffee".to_owned(),
        amount_minor: 650,
        currency: "USD".to_owned(),
        category: "Food".to_owned(),
        account: Some("Everyday".to_owned()),
        note: None,
    }
}

fn stored() -> Expense {
    Expense {
        id: "e1".to_owned(),
        spent_on: "2026-08-24".to_owned(),
        merchant: "Morning Coffee".to_owned(),
        amount_minor: 650,
        currency: "USD".to_owned(),
        category: "Food".to_owned(),
        account: Some("Everyday".to_owned()),
        note: Some("oat".to_owned()),
        created_at: 1,
        updated_at: 1,
    }
}

#[test]
fn limits_are_held_between_one_and_the_maximum() {
    assert_eq!(effective_limit(None), 200);
    assert_eq!(effective_limit(Some(0)), 1);
    assert_eq!(effective_limit(Some(-5)), 1);
    assert_eq!(effective_limit(Some(37)), 37);
    assert_eq!(effective_limit(Some(501)), 500);
    assert_eq!(effective_limit(Some(i64::MAX)), 500);
}

#[test]
fn listing_query_carries_each_filter() {
    let (sql, values) = list_query(&ExpenseFilters::default());
    assert_eq!(sql, format!("{LIST_SELECT}{LIST_ORDER}"));
    assert_eq!(values, vec![SqlValue::Integer(200)]);

    let filters = ExpenseFilters {
        from: Some("2026-01-01".to_owned()),
        to: Some("2026-01-31".to_owned()),
        category: Some(" Food ".to_owned()),
        currency: Some("usd".to_owned()),
        limit: Some(10),
    };
    let (sql, values) = list_query(&filters);
    assert_eq!(
        sql,
        format!(
            "{LIST_SELECT} AND spent_on >= ? AND spent_on <= ? AND category = ? AND currency = ?{LIST_ORDER}"
        )
    );
    assert_eq!(
        values,
        vec![
            SqlValue::Text("2026-01-01".to_owned()),
            SqlValue::Text("2026-01-31".to_owned()),
            SqlValue::Text("Food".to_owned()),
            SqlValue::Text("USD".to_owned()),
            SqlValue::Integer(10),
        ]
    );
}

#[test]
fn rows_bind_in_column_order() {
    let v = insert_values("id-1", &coffee(), 42);
    assert_eq!(v.len(), 10);
    assert_eq!(v[0], SqlValue::Text("id-1".to_owned()));
    assert_eq!(v[3], SqlValue::Integer(650));
    assert_eq!(v[6], SqlValue::Text("Everyday".to_owned()));
    assert_eq!(v[7], SqlValue::Null);
    assert_eq!(v[8], SqlValue::Integer(42));
    assert_eq!(v[9], SqlValue::Integer(42));
    let u = update_values(&coffee(), 7, "id-1");
    assert_eq!(u.len(), 9);
    assert_eq!(u[7], SqlValue::Integer(7));
    assert_eq!(u[8], SqlValue::Text("id-1".to_owned()));
}

#[test]
fn a_patch_keeps_what_it_omits() {
    let patch = ExpensePatch {
        merchant: Some("Corner Cafe".to_owned()),
        note: Some("".to_owned()),
        ..Default::default()
    };
    let next = merge_patch(stored(), patch);
    assert_eq!(next.merchant, "Corner Cafe");
    assert_eq!(next.spent_on, "2026-08-24");
    assert_eq!(next.amount_minor, 650);
    assert_eq!(next.currency, "USD");
    assert_eq!(next.category, "Food");
    assert_eq!(next.account, Some("Everyday".to_owned()));
    assert_eq!(next.note, Some("".to_owned()));
}

#[test]
fn outcomes_of_counts_and_deletions() {
    assert!(matches!(deletion_outcome(0), Err(StoreError::NotFound)));
    assert!(deletion_outcome(1).is_ok());
    assert_eq!(count_to_usize(3).unwrap(), 3);
    assert!(matches!(count_to_usize(-1), Err(StoreError::CountOutOfRange)));
    assert!(first_row(vec![]).is_none());
    assert_eq!(first_row(vec![stored()]).unwrap().id, "e1");
}

#[test]
fn errors_map_to_statuses_and_messages() {
    let invalid = StoreError::Invalid(ValidationError::InvalidAmount);
    assert_eq!(invalid.http_status(), 422);
    assert_eq!(invalid.message(), "amountMinor must be a positive integer");
    assert_eq!(StoreError::NotFound.http_status(), 404);
    assert_eq!(StoreError::NotFound.message(), "expense not found");
    assert_eq!(StoreError::TotalOutOfRange.http_status(), 500);
}

#[test]
fn a_refused_expense_is_not_stored() {
    let store = ExpenseStore::open_memory().unwrap();
    let mut bad = coffee();
    bad.currency = "dollars".to_owned();
    let err = store.insert(bad).unwrap_err();
    assert!(matches!(err, StoreError::Invalid(ValidationError::InvalidCurrency)));
    assert_eq!(store.counts().unwrap(), 0);
}

#[test]
fn a_stored_expense_reads_back_normalized() {
    let store = ExpenseStore::open_memory().unwrap();
    let mut input = coffee();
    input.merchant = "  Morning Coffee  ".to_owned();
    input.currency = "usd".to_owned();
    let e = store.insert(input).unwrap();
    assert_eq!(e.merchant, "Morning Coffee");
    assert_eq!(e.currency, "USD");
    assert_eq!(e.created_at, e.updated_at);
    assert_eq!(e.id.len(), 36);
    let listed = store.list(ExpenseFilters::default()).unwrap();
    assert_eq!(listed, vec![e]);
    assert_eq!(store.counts().unwrap(), 1);
}

#[test]
fn listings_are_newest_first_and_bounded() {
    let store = ExpenseStore::open_memory().unwrap();
    for day in ["2026-08-01", "2026-08-03", "2026-08-02"] {
        let mut e = coffee();
        e.spent_on = day.to_owned();
        store.insert(e).unwrap();
    }
    let all = store.list(ExpenseFilters::default()).unwrap();
    let days: Vec<&str> = all.iter().map(|e| e.spent_on.as_str()).collect();
    assert_eq!(days, ["2026-08-03", "2026-08-02", "2026-08-01"]);
    let two = store.list(ExpenseFilters { limit: Some(2), ..Default::default() }).unwrap();
    assert_eq!(two.len(), 2);
    let ranged = store
        .list(ExpenseFilters {
            from: Some("2026-08-02".to_owned()),
            to: Some("2026-08-02".to_owned()),
            ..Default::default()
        })
        .unwrap();
    assert_eq!(ranged.len(), 1);
    let bad = store
        .list(ExpenseFilters {
            from: Some("2026-08-03".to_owned()),
            to: Some("2026-08-02".to_owned()),
            ..Default::default()
        })
        .unwrap_err();
    assert!(matches!(bad, StoreError::Invalid(ValidationError::InvalidRange)));
}

#[test]
fn updates_and_deletes_of_missing_ids_fail() {
    let store = ExpenseStore::open_memory().unwrap();
    let patch = ExpensePatch { merchant: Some("x".to_owned()), ..Default::default() };
    assert!(matches!(store.update("nope", patch), Err(StoreError::NotFound)));
    let empty = ExpensePatch::default();
    assert!(matches!(
        store.update("nope", empty),
        Err(StoreError::Invalid(ValidationError::EmptyPatch))
    ));
    let e = store.insert(coffee()).unwrap();
    store.delete(&e.id).unwrap();
    assert!(matches!(store.delete(&e.id), Err(StoreError::NotFound)));
}

#[test]
fn a_correction_can_clear_the_account() {
    let store = ExpenseStore::open_memory().unwrap();
    let e = store.insert(coffee()).unwrap();
    let patch = ExpensePatch { account: Some(" ".to_owned()), ..Default::default() };
    let updated = store.update(&e.id, patch).unwrap();
    assert_eq!(updated.account, None);
    assert_eq!(updated.merchant, "Morning Coffee");
    assert_eq!(updated.created_at, e.created_at);
}

#[test]
fn a_summary_whose_total_overflows_is_refused() {
    let store = ExpenseStore::open_memory().unwrap();
    let mut big = coffee();
    big.amount_minor = i64::MAX;
    store.insert(big).unwrap();
    store.insert(coffee()).unwrap();
    let err = store.summary(ExpenseFilters::default()).unwrap_err();
    assert!(matches!(err, StoreError::TotalOutOfRange));
    assert_eq!(err.http_status(), 500);
}

#[test]
fn lookups_and_deletions_bind_the_id() {
    assert_eq!(select_values("e1"), vec![SqlValue::Text("e1".to_owned())]);
    assert_eq!(delete_values("abc-123"), vec![SqlValue::Text("abc-123".to_owned())]);
}

#[test]
fn a_correction_needs_a_stored_expense_and_a_valid_result() {
    let patch = ExpensePatch { merchant: Some(" Corner Cafe ".to_owned()), ..Default::default() };
    assert!(matches!(correction(None, patch.clone()), Err(StoreError::NotFound)));

    let next = correction(Some(stored()), patch).unwrap();
    assert_eq!(next.merchant, "Corner Cafe");
    assert_eq!(next.amount_minor, 650);
    assert_eq!(next.note, Some("oat".to_owned()));

    let mut broken = stored();
    broken.currency = "US".to_owned();
    let patch = ExpensePatch { note: Some("x".to_owned()), ..Default::default() };
    assert!(matches!(
        correction(Some(broken), patch),
        Err(StoreError::Invalid(ValidationError::InvalidCurrency))
    ));
}

#[test]
fn store_failures_have_fixed_messages() {
    assert_eq!(StoreError::InsertedMissing.message(), "inserted expense disappeared");
    assert_eq!(StoreError::UpdatedMissing.message(), "updated expense disappeared");
    assert_eq!(StoreError::CountOutOfRange.message(), "expense count did not fit usize");
    assert_eq!(StoreError::TotalOutOfRange.message(), "expense total did not fit i64");
    assert_eq!(
        StoreError::Invalid(ValidationError::InvalidAmount).message(),
        "amountMinor must be a positive integer"
    );
}

#[test]
fn a_write_gives_back_the_row_read_after_it() {
    assert_eq!(read_back(Some(stored()), StoreError::InsertedMissing).unwrap(), stored());
    assert!(matches!(
        read_back(None, StoreError::InsertedMissing),
        Err(StoreError::InsertedMissing)
    ));
    assert!(matches!(read_back(None, StoreError::UpdatedMissing), Err(StoreError::UpdatedMissing)));
}

#[test]
fn a_summary_lists_up_to_the_maximum_whatever_the_limit() {
    let filters = ExpenseFilters {
        from: Some("2026-01-01".to_owned()),
        to: None,
        category: Some("Food".to_owned()),
        currency: None,
        limit: Some(3),
    };
    let f = summary_filters(filters);
    assert_eq!(f.limit, Some(500));
    assert_eq!(f.from, Some("2026-01-01".to_owned()));
    assert_eq!(f.category, Some("Food".to_owned()));
    assert_eq!(summary_filters(ExpenseFilters::default()).limit, Some(500));

    let out = summary_outcome(&vec![stored(), stored()]).unwrap();
    assert_eq!(out.record_count, 2);
    assert_eq!(out.total_minor, Some(1300));
    let mut big = stored();
    big.amount_minor = i64::MAX;
    assert!(matches!(
        summary_outcome(&vec![big.clone(), big]),
        Err(StoreError::TotalOutOfRange)
    ));
}
