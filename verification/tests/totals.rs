use ryu_expenses::models::Expense;
use ryu_expenses::summary::summarize;

fn expense(currency: &str, category: &str, amount: i64) -> Expense {
    Expense {
        id: format!("{currency}-{category}-{amount}"),
        spent_on: "2026-08-24".to_owned(),
        merchant: "m".to_owned(),
        amount_minor: amount,
        currency: currency.to_owned(),
        category: category.to_owned(),
        account: None,
        note: None,
        created_at: 0,
        updated_at: 0,
    }
}

#[test]
fn an_empty_ledger_summarizes_to_nothing() {
    let s = summarize(&vec![]).unwrap();
    assert_eq!(s.record_count, 0);
    assert_eq!(s.total_minor, None);
    assert!(s.by_currency.is_empty());
}

#[test]
fn one_currency_has_a_grand_total() {
    let s = summarize(&vec![
        expense("USD", "Food", 650),
        expense("USD", "Transport", 1200),
        expense("USD", "Food", 100),
    ])
    .unwrap();
    assert_eq!(s.record_count, 3);
    assert_eq!(s.total_minor, Some(1950));
    assert_eq!(s.by_currency.len(), 1);
    let cats = &s.by_currency[0].categories;
    assert_eq!(cats.len(), 2);
    assert_eq!((cats[0].category.as_str(), cats[0].total_minor), ("Transport", 1200));
    assert_eq!((cats[1].category.as_str(), cats[1].total_minor), ("Food", 750));
}

#[test]
fn currencies_are_ordered_and_never_added() {
    let s = summarize(&vec![
        expense("USD", "Food", 650),
        expense("SGD", "Food", 900),
        expense("EUR", "Rent", 5),
        expense("SGD", "Books", 900),
    ])
    .unwrap();
    assert_eq!(s.total_minor, None);
    let codes: Vec<&str> = s.by_currency.iter().map(|c| c.currency.as_str()).collect();
    assert_eq!(codes, ["EUR", "SGD", "USD"]);
    assert_eq!(s.by_currency[1].total_minor, 1800);
    let sgd: Vec<&str> = s.by_currency[1].categories.iter().map(|c| c.category.as_str()).collect();
    assert_eq!(sgd, ["Books", "Food"]);
    for c in &s.by_currency {
        assert_eq!(c.total_minor, c.categories.iter().map(|k| k.total_minor).sum::<i64>());
    }
}

#[test]
fn totals_beyond_i64_are_refused() {
    assert!(summarize(&vec![expense("USD", "A", i64::MAX), expense("USD", "B", 1)]).is_none());
    assert!(summarize(&vec![expense("USD", "A", i64::MAX), expense("EUR", "A", 1)]).is_some());
    let s = summarize(&vec![
        expense("USD", "A", i64::MAX),
        expense("USD", "A", 5),
        expense("USD", "A", -10),
    ])
    .unwrap();
    assert_eq!(s.total_minor, Some(i64::MAX - 5));
}
