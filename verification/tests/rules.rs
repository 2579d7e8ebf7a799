use ryu_expenses::models::{default_currency, ExpensePatch, NewExpense};
use ryu_expenses::validation::{
    normalize_currency, normalize_optional, normalized_new, parse_date, validate_filters,
    validate_new, validate_patch, ValidationError,
};

fn sample() -> NewExpense {
    NewExpense {
        spent_on: " 2026-08-24 ".to_owned(),
        merchant: "  Morning Coffee ".to_owned(),
        amount_minor: 650,
        currency: " usd".to_owned(),
        category: "Food\t".to_owned(),
        account: Some("   ".to_owned()),
        note: Some(" oat milk ".to_owned()),
    }
}

#[test]
fn exact_dates_are_accepted() {
    let d = parse_date("2026-08-24").expect("exact date");
    assert_eq!((d.year, d.month, d.day), (2026, 8, 24));
    assert_eq!(parse_date("2024-02-29").unwrap().day, 29);
    assert_eq!(parse_date("2000-02-29").unwrap().month, 2);
    assert_eq!(parse_date("0999-12-31").unwrap().year, 999);
    let d = parse_date("0001-01-01").unwrap();
    assert_eq!((d.year, d.month, d.day), (1, 1, 1));
    let d = parse_date("9999-12-31").unwrap();
    assert_eq!((d.year, d.month, d.day), (9999, 12, 31));
}

#[test]
fn inexact_dates_are_refused() {
    assert_eq!(parse_date("2026-2-4"), Err(ValidationError::InvalidDate));
    assert_eq!(parse_date("2026-02-30"), Err(ValidationError::InvalidDate));
    assert_eq!(parse_date("2026-08-24 "), Err(ValidationError::InvalidDate));
    assert_eq!(parse_date("24/08/2026"), Err(ValidationError::InvalidDate));
    assert_eq!(parse_date(""), Err(ValidationError::InvalidDate));
    assert_eq!(parse_date("1900-02-29"), Err(ValidationError::InvalidDate));
    assert_eq!(parse_date("999-12-31"), Err(ValidationError::InvalidDate));
}

#[test]
fn currency_codes_are_trimmed_and_upper_cased() {
    assert_eq!(normalize_currency(" usd ").unwrap(), "USD");
    assert_eq!(normalize_currency("sGd").unwrap(), "SGD");
    assert_eq!(normalize_currency("\u{3000}eur\u{a0}").unwrap(), "EUR");
    assert_eq!(normalize_currency("éur"), Err(ValidationError::InvalidCurrency));
    assert_eq!(normalize_currency("US"), Err(ValidationError::InvalidCurrency));
    assert_eq!(normalize_currency("USDX"), Err(ValidationError::InvalidCurrency));
    assert_eq!(normalize_currency("U5D"), Err(ValidationError::InvalidCurrency));
    assert_eq!(normalize_currency("ÜSD"), Err(ValidationError::InvalidCurrency));
}

#[test]
fn new_expenses_are_normalized() {
    let n = normalized_new(sample()).expect("valid");
    assert_eq!(n.spent_on, "2026-08-24");
    assert_eq!(n.merchant, "Morning Coffee");
    assert_eq!(n.currency, "USD");
    assert_eq!(n.category, "Food");
    assert_eq!(n.account, None);
    assert_eq!(n.note, Some("oat milk".to_owned()));
    assert_eq!(n.amount_minor, 650);
}

#[test]
fn normalizing_twice_changes_nothing() {
    let once = normalized_new(sample()).unwrap();
    let twice = normalized_new(once.clone()).unwrap();
    assert_eq!(once, twice);
}

#[test]
fn each_rule_of_a_new_expense_has_its_error() {
    let mut e = sample();
    e.merchant = "   ".to_owned();
    assert_eq!(validate_new(&e), Err(ValidationError::Required { field: "merchant" }));
    let mut e = sample();
    e.merchant = "m".repeat(161);
    assert_eq!(validate_new(&e), Err(ValidationError::TooLong { field: "merchant" }));
    let mut e = sample();
    e.merchant = format!("  {}  ", "m".repeat(160));
    assert_eq!(validate_new(&e), Ok(()));
    let mut e = sample();
    e.amount_minor = -1;
    assert_eq!(validate_new(&e), Err(ValidationError::InvalidAmount));
    let mut e = sample();
    e.currency = "dollars".to_owned();
    assert_eq!(validate_new(&e), Err(ValidationError::InvalidCurrency));
    let mut e = sample();
    e.category = "".to_owned();
    assert_eq!(validate_new(&e), Err(ValidationError::Required { field: "category" }));
    let mut e = sample();
    e.account = Some("a".repeat(121));
    assert_eq!(validate_new(&e), Err(ValidationError::TooLong { field: "account" }));
    let mut e = sample();
    e.note = Some("é".repeat(2001));
    assert_eq!(validate_new(&e), Err(ValidationError::TooLong { field: "note" }));
    let mut e = sample();
    e.note = Some("é".repeat(2000));
    assert_eq!(validate_new(&e), Ok(()));
    let mut e = sample();
    e.spent_on = "yesterday".to_owned();
    e.merchant = "".to_owned();
    assert_eq!(validate_new(&e), Err(ValidationError::InvalidDate));
}

#[test]
fn patches_must_change_something_valid() {
    let empty = ExpensePatch::default();
    assert_eq!(validate_patch(&empty), Err(ValidationError::EmptyPatch));
    let p = ExpensePatch { amount_minor: Some(0), ..Default::default() };
    assert_eq!(validate_patch(&p), Err(ValidationError::InvalidAmount));
    let p = ExpensePatch { spent_on: Some(" 2026-01-02 ".to_owned()), ..Default::default() };
    assert_eq!(validate_patch(&p), Ok(()));
    let p = ExpensePatch { merchant: Some(" ".to_owned()), ..Default::default() };
    assert_eq!(validate_patch(&p), Err(ValidationError::Required { field: "merchant" }));
    let p = ExpensePatch { account: Some("".to_owned()), ..Default::default() };
    assert_eq!(validate_patch(&p), Ok(()));
}

#[test]
fn filters_need_ordered_exact_dates() {
    assert_eq!(validate_filters(None, None, None, None), Ok(()));
    assert_eq!(validate_filters(Some("2026-01-01"), Some("2026-01-31"), None, None), Ok(()));
    assert_eq!(
        validate_filters(Some("2026-02-01"), Some("2026-01-31"), None, None),
        Err(ValidationError::InvalidRange)
    );
    assert_eq!(
        validate_filters(Some(" 2026-02-01"), None, None, None),
        Err(ValidationError::InvalidDate)
    );
    assert_eq!(
        validate_filters(None, None, Some(" "), None),
        Err(ValidationError::Required { field: "category" })
    );
    assert_eq!(
        validate_filters(None, None, None, Some("eur")),
        Ok(())
    );
    assert_eq!(
        validate_filters(None, None, None, Some("euro")),
        Err(ValidationError::InvalidCurrency)
    );
}

#[test]
fn optional_texts_are_trimmed_or_dropped() {
    assert_eq!(normalize_optional(Some("  x ".to_owned())), Some("x".to_owned()));
    assert_eq!(normalize_optional(Some("\u{3000}\n".to_owned())), None);
    assert_eq!(normalize_optional(None), None);
}

#[test]
fn messages_name_the_field() {
    assert_eq!(ValidationError::Required { field: "merchant" }.message(), "merchant is required");
    assert_eq!(ValidationError::TooLong { field: "note" }.message(), "note is too long");
    assert_eq!(ValidationError::InvalidRange.message(), "from must not be after to");
    assert_eq!(
        ValidationError::InvalidDate.message(),
        "spentOn must be an exact YYYY-MM-DD date"
    );
}

#[test]
fn the_default_currency_is_usd() {
    assert_eq!(default_currency(), "USD");
}
