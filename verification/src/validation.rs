use vstd::prelude::*;
use chrono::Datelike;

use crate::models::{
    ExpensePatch, NewExpense, NewExpenseModel, PatchModel, as_str_opt, opt_chars, opt_str_chars,
};
use crate::text::{
    ascii_upper, is_ascii_upper, is_white_space, lemma_trim_idempotent, lemma_trim_no_white_space,
    str_equal, str_lt, str_less, to_ascii_uppercase, trim, trim_seq,
};

verus! {

pub const MAX_MERCHANT_LEN: usize = 160;

pub const MAX_CATEGORY_LEN: usize = 80;

pub const MAX_ACCOUNT_LEN: usize = 120;

pub const MAX_NOTE_LEN: usize = 2_000;

/// The only calendar-date shape the ledger accepts.
pub const DATE_FORMAT: &'static str = "%Y-%m-%d";

/// Why an expense, a correction or a filter was refused.
#[derive(Debug, PartialEq, Eq)]
pub enum ValidationError {
    Required { field: &'static str },
    TooLong { field: &'static str },
    InvalidDate,
    InvalidAmount,
    InvalidCurrency,
    EmptyPatch,
    InvalidRange,
}

impl ValidationError {
    /// The message a caller is shown for this error.
    pub fn message(&self) -> (r: String)
        ensures
            r@ == self.message_spec(),
    {
        match self {
            ValidationError::Required { field } => String::from_str(field).concat(" is required"),
            ValidationError::TooLong { field } => String::from_str(field).concat(" is too long"),
            ValidationError::InvalidDate => String::from_str(
                "spentOn must be an exact YYYY-MM-DD date",
            ),
            ValidationError::InvalidAmount => String::from_str(
                "amountMinor must be a positive integer",
            ),
            ValidationError::InvalidCurrency => String::from_str(
                "currency must be three uppercase letters",
            ),
            ValidationError::EmptyPatch => String::from_str(
                "at least one expense field is required",
            ),
            ValidationError::InvalidRange => String::from_str("from must not be after to"),
        }
    }

    pub open spec fn message_spec(&self) -> Seq<char> {
        match self {
            ValidationError::Required { field } => field@ + " is required"@,
            ValidationError::TooLong { field } => field@ + " is too long"@,
            ValidationError::InvalidDate => "spentOn must be an exact YYYY-MM-DD date"@,
            ValidationError::InvalidAmount => "amountMinor must be a positive integer"@,
            ValidationError::InvalidCurrency => "currency must be three uppercase letters"@,
            ValidationError::EmptyPatch => "at least one expense field is required"@,
            ValidationError::InvalidRange => "from must not be after to"@,
        }
    }
}

/// A day of the proleptic Gregorian calendar, as its parts.
#[derive(Debug, Clone, Copy, PartialEq, Eq)]
pub struct CalendarDate {
    pub year: i32,
    pub month: u32,
    pub day: u32,
}

/// What `chrono::NaiveDate::parse_from_str(text, format)` gives, as the parts of the date.
pub uninterp spec fn chrono_parse_date(text: Seq<char>, format: Seq<char>) -> Option<CalendarDate>;

/// The earliest and the latest year of a `chrono::NaiveDate`.
pub const MIN_DATE_YEAR: i32 = -262143;

pub const MAX_DATE_YEAR: i32 = 262142;

/// A leap year of the proleptic Gregorian calendar (year 0 is one).
pub open spec fn is_leap_year(year: int) -> bool {
    (year % 4 == 0 && year % 100 != 0) || year % 400 == 0
}

pub open spec fn days_in_month(year: int, month: int) -> int {
    if month == 2 {
        if is_leap_year(year) { 29 } else { 28 }
    } else if month == 4 || month == 6 || month == 9 || month == 11 {
        30
    } else {
        31
    }
}

/// The parts name a day that a `chrono::NaiveDate` can hold.
pub open spec fn is_calendar_date(d: CalendarDate) -> bool {
    &&& MIN_DATE_YEAR <= d.year <= MAX_DATE_YEAR
    &&& 1 <= d.month <= 12
    &&& 1 <= d.day <= days_in_month(d.year as int, d.month as int)
}

pub open spec fn digit_char(d: nat) -> char {
    seq!['0', '1', '2', '3', '4', '5', '6', '7', '8', '9'][(d % 10) as int]
}

/// The decimal digits of `n`, at least `width` of them, padded with zeros in front.
pub open spec fn padded_digits(n: nat, width: nat) -> Seq<char>
    decreases n, width,
{
    if n < 10 && width <= 1 {
        seq![digit_char(n)]
    } else {
        padded_digits(n / 10, if width > 0 { (width - 1) as nat } else { 0 }).push(digit_char(n))
    }
}

/// `%Y`: four digits for the years 0 to 9999, else a sign and at least four digits.
pub open spec fn year_text(year: int) -> Seq<char> {
    if 0 <= year <= 9999 {
        padded_digits(year as nat, 4)
    } else if year < 0 {
        seq!['-'] + padded_digits((-year) as nat, 4)
    } else {
        seq!['+'] + padded_digits(year as nat, 4)
    }
}

/// A date rendered with `DATE_FORMAT`: year, month and day, two digits each for the
/// month and the day, joined by hyphens.
pub open spec fn date_text(d: CalendarDate) -> Seq<char> {
    year_text(d.year as int) + seq!['-'] + padded_digits(d.month as nat, 2) + seq!['-']
        + padded_digits(d.day as nat, 2)
}

/// `chrono::NaiveDate::parse_from_str`: its result, as the year, month and day of the
/// date it parsed, is the named `chrono_parse_date` of the text and the format. What
/// chrono accepts is not written out here, beyond one fact: with `DATE_FORMAT`, a day
/// of the years 1 to 9999 written as `DATE_FORMAT` renders it (four digits of year,
/// two of month and day) parses back to that day.
#[verifier::external_body]
fn parse_with_format(text: &str, format: &str) -> (r: Option<CalendarDate>)
    ensures
        r == chrono_parse_date(text@, format@),
        format@ == DATE_FORMAT@ ==> forall|d: CalendarDate|
            is_calendar_date(d) && 1 <= d.year <= 9999 && text@ == #[trigger] date_text(d)
                ==> r == Some(d),
{
    chrono::NaiveDate::parse_from_str(text, format).ok().map(
        |d| CalendarDate { year: d.year(), month: d.month(), day: d.day() },
    )
}

/// `chrono::NaiveDate::from_ymd_opt` and `format(..).to_string()`: `None` where the
/// parts name no day of chrono's calendar, else the day rendered with `DATE_FORMAT`,
/// the only format it is given, with which rendering cannot fail.
#[verifier::external_body]
fn format_with(date: CalendarDate, format: &str) -> (r: Option<String>)
    requires
        format@ == DATE_FORMAT@,
    ensures
        opt_chars(r) == (if is_calendar_date(date) {
            Some(date_text(date))
        } else {
            None
        }),
{
    chrono::NaiveDate::from_ymd_opt(date.year, date.month, date.day).map(
        |d| d.format(format).to_string(),
    )
}

/// `s` is a date exactly as chrono writes it: it parses, and the parsed date renders
/// back to `s`, character for character.
pub open spec fn is_exact_date(s: Seq<char>) -> bool {
    match chrono_parse_date(s, DATE_FORMAT@) {
        Some(d) => is_calendar_date(d) && date_text(d) == s,
        None => false,
    }
}

pub open spec fn date_error(s: Seq<char>) -> Option<ValidationError> {
    if is_exact_date(s) {
        None
    } else {
        Some(ValidationError::InvalidDate)
    }
}

/// The outcome of parsing `value` once chrono has parsed it into `parsed` and
/// rendered that date as `rendered`.
pub fn accept_date(value: &str, parsed: Option<CalendarDate>, rendered: Option<String>) -> (r:
    Result<CalendarDate, ValidationError>)
    ensures
        r == (match parsed {
            Some(d) => if opt_chars(rendered) == Some(value@) {
                Ok::<CalendarDate, ValidationError>(d)
            } else {
                Err(ValidationError::InvalidDate)
            },
            None => Err(ValidationError::InvalidDate),
        }),
{
    match parsed {
        Some(d) => match rendered {
            Some(text) => {
                if str_equal(text.as_str(), value) {
                    Ok(d)
                } else {
                    Err(ValidationError::InvalidDate)
                }
            },
            None => Err(ValidationError::InvalidDate),
        },
        None => Err(ValidationError::InvalidDate),
    }
}

/// Parses an exact `YYYY-MM-DD` date: the text must be what chrono renders for the
/// date that it parses from it.
pub fn parse_date(value: &str) -> (r: Result<CalendarDate, ValidationError>)
    ensures
        r is Ok <==> is_exact_date(value@),
        r matches Ok(d) ==> chrono_parse_date(value@, DATE_FORMAT@) == Some(d),
        r matches Ok(d) ==> is_calendar_date(d) && date_text(d) == value@,
        r matches Err(e) ==> e == ValidationError::InvalidDate,
        forall|d: CalendarDate|
            is_calendar_date(d) && 1 <= d.year <= 9999 && value@ == #[trigger] date_text(d)
                ==> r == Ok::<CalendarDate, ValidationError>(d),
{
    let parsed = parse_with_format(value, DATE_FORMAT);
    let rendered = match parsed {
        Some(d) => format_with(d, DATE_FORMAT),
        None => None,
    };
    accept_date(value, parsed, rendered)
}

/// The currency code that `value` stands for: trimmed, ASCII letters in upper case.
pub open spec fn normalized_currency(value: Seq<char>) -> Seq<char> {
    trim_seq(value).map_values(|c: char| ascii_upper(c))
}

/// Exactly three letters `A`..`Z`.
pub open spec fn is_currency_code(s: Seq<char>) -> bool {
    s.len() == 3 && forall|i: int| 0 <= i < 3 ==> is_ascii_upper(#[trigger] s[i])
}

pub open spec fn currency_error(value: Seq<char>) -> Option<ValidationError> {
    if is_currency_code(normalized_currency(value)) {
        None
    } else {
        Some(ValidationError::InvalidCurrency)
    }
}

/// Trims and upper-cases a currency code and accepts it when three letters remain.
pub fn normalize_currency(value: &str) -> (r: Result<String, ValidationError>)
    ensures
        r is Ok <==> is_currency_code(normalized_currency(value@)),
        r matches Ok(n) ==> n@ == normalized_currency(value@),
        r matches Err(e) ==> e == ValidationError::InvalidCurrency,
{
    let normalized = to_ascii_uppercase(trim(value));
    let s = normalized.as_str();
    if s.unicode_len() != 3 {
        return Err(ValidationError::InvalidCurrency);
    }
    let mut i: usize = 0;
    while i < 3
        invariant
            s@ == normalized_currency(value@),
            s@.len() == 3,
            i <= 3,
            forall|k: int| 0 <= k < i ==> is_ascii_upper(#[trigger] s@[k]),
        decreases 3 - i,
    {
        let c = s.get_char(i);
        if !('A' <= c && c <= 'Z') {
            return Err(ValidationError::InvalidCurrency);
        }
        i = i + 1;
    }
    Ok(normalized)
}

/// The error of a required text field: blank after trimming, or longer than
/// `max_len` characters after trimming.
pub open spec fn text_error(field: &'static str, value: Seq<char>, max_len: nat) -> Option<
    ValidationError,
> {
    if trim_seq(value).len() == 0 {
        Some(ValidationError::Required { field })
    } else if trim_seq(value).len() > max_len {
        Some(ValidationError::TooLong { field })
    } else {
        None
    }
}

/// The error of an optional text field: present and longer than `max_len`
/// characters after trimming.
pub open spec fn optional_text_error(
    field: &'static str,
    value: Option<Seq<char>>,
    max_len: nat,
) -> Option<ValidationError> {
    match value {
        Some(v) => if trim_seq(v).len() > max_len {
            Some(ValidationError::TooLong { field })
        } else {
            None
        },
        None => None,
    }
}

/// The first error of a check and then another.
pub open spec fn or_else(first: Option<ValidationError>, then: Option<ValidationError>) -> Option<
    ValidationError,
> {
    if first is Some {
        first
    } else {
        then
    }
}

pub open spec fn as_result(e: Option<ValidationError>) -> Result<(), ValidationError> {
    match e {
        Some(e) => Err(e),
        None => Ok(()),
    }
}

pub open spec fn amount_error(amount: i64) -> Option<ValidationError> {
    if amount <= 0 {
        Some(ValidationError::InvalidAmount)
    } else {
        None
    }
}

/// The first rule that a new expense breaks, checked in this order: date, merchant,
/// amount, currency, category, account, note.
pub open spec fn new_expense_error(e: NewExpenseModel) -> Option<ValidationError> {
    or_else(
        date_error(trim_seq(e.spent_on)),
        or_else(
            text_error("merchant", e.merchant, MAX_MERCHANT_LEN as nat),
            or_else(
                amount_error(e.amount_minor),
                or_else(
                    currency_error(e.currency),
                    or_else(
                        text_error("category", e.category, MAX_CATEGORY_LEN as nat),
                        or_else(
                            optional_text_error("account", e.account, MAX_ACCOUNT_LEN as nat),
                            optional_text_error("note", e.note, MAX_NOTE_LEN as nat),
                        ),
                    ),
                ),
            ),
        ),
    )
}

fn validate_text(field: &'static str, value: &str, max_len: usize) -> (r: Result<
    (),
    ValidationError,
>)
    ensures
        r == as_result(text_error(field, value@, max_len as nat)),
{
    let trimmed = trim(value);
    let n = trimmed.unicode_len();
    if n == 0 {
        return Err(ValidationError::Required { field });
    }
    if n > max_len {
        return Err(ValidationError::TooLong { field });
    }
    Ok(())
}

fn validate_optional_text(field: &'static str, value: Option<&str>, max_len: usize) -> (r:
    Result<(), ValidationError>)
    ensures
        r == as_result(optional_text_error(field, opt_str_chars(value), max_len as nat)),
{
    if let Some(value) = value {
        if trim(value).unicode_len() > max_len {
            return Err(ValidationError::TooLong { field });
        }
    }
    Ok(())
}

fn check_date(value: &str) -> (r: Result<(), ValidationError>)
    ensures
        r == as_result(date_error(value@)),
{
    match parse_date(value) {
        Ok(_) => Ok(()),
        Err(e) => Err(e),
    }
}

fn check_currency(value: &str) -> (r: Result<(), ValidationError>)
    ensures
        r == as_result(currency_error(value@)),
{
    match normalize_currency(value) {
        Ok(_) => Ok(()),
        Err(e) => Err(e),
    }
}

/// Checks a new expense: an exact date, a merchant, a positive amount, a currency
/// code, a category, and account and note within their lengths.
pub fn validate_new(input: &NewExpense) -> (r: Result<(), ValidationError>)
    ensures
        r == as_result(new_expense_error(input@)),
{
    check_date(trim(input.spent_on.as_str()))?;
    validate_text("merchant", input.merchant.as_str(), MAX_MERCHANT_LEN)?;
    if input.amount_minor <= 0 {
        return Err(ValidationError::InvalidAmount);
    }
    check_currency(input.currency.as_str())?;
    validate_text("category", input.category.as_str(), MAX_CATEGORY_LEN)?;
    validate_optional_text("account", as_str_opt(&input.account), MAX_ACCOUNT_LEN)?;
    validate_optional_text("note", as_str_opt(&input.note), MAX_NOTE_LEN)?;
    Ok(())
}


pub open spec fn opt_date_error(v: Option<Seq<char>>) -> Option<ValidationError> {
    match v {
        Some(v) => date_error(v),
        None => None,
    }
}

pub open spec fn opt_text_error(field: &'static str, v: Option<Seq<char>>, max_len: nat) -> Option<
    ValidationError,
> {
    match v {
        Some(v) => text_error(field, v, max_len),
        None => None,
    }
}

pub open spec fn opt_currency_error(v: Option<Seq<char>>) -> Option<ValidationError> {
    match v {
        Some(v) => currency_error(v),
        None => None,
    }
}

pub open spec fn opt_amount_error(v: Option<i64>) -> Option<ValidationError> {
    match v {
        Some(a) => amount_error(a),
        None => None,
    }
}

pub open spec fn trimmed_opt(v: Option<Seq<char>>) -> Option<Seq<char>> {
    match v {
        Some(v) => Some(trim_seq(v)),
        None => None,
    }
}

pub open spec fn patch_is_empty(p: PatchModel) -> bool {
    &&& p.spent_on is None
    &&& p.merchant is None
    &&& p.amount_minor is None
    &&& p.currency is None
    &&& p.category is None
    &&& p.account is None
    &&& p.note is None
}

/// The first rule that a correction breaks: it must change something, and each
/// field that it changes must pass the rule of a new expense's field.
pub open spec fn patch_error(p: PatchModel) -> Option<ValidationError> {
    if patch_is_empty(p) {
        Some(ValidationError::EmptyPatch)
    } else {
        or_else(
            opt_date_error(trimmed_opt(p.spent_on)),
            or_else(
                opt_text_error("merchant", p.merchant, MAX_MERCHANT_LEN as nat),
                or_else(
                    opt_amount_error(p.amount_minor),
                    or_else(
                        opt_currency_error(p.currency),
                        or_else(
                            opt_text_error("category", p.category, MAX_CATEGORY_LEN as nat),
                            or_else(
                                optional_text_error("account", p.account, MAX_ACCOUNT_LEN as nat),
                                optional_text_error("note", p.note, MAX_NOTE_LEN as nat),
                            ),
                        ),
                    ),
                ),
            ),
        )
    }
}

/// Checks a correction of a stored expense.
pub fn validate_patch(input: &ExpensePatch) -> (r: Result<(), ValidationError>)
    ensures
        r == as_result(patch_error(input@)),
{
    if input.spent_on.is_none() && input.merchant.is_none() && input.amount_minor.is_none()
        && input.currency.is_none() && input.category.is_none() && input.account.is_none()
        && input.note.is_none() {
        return Err(ValidationError::EmptyPatch);
    }
    if let Some(value) = &input.spent_on {
        check_date(trim(value.as_str()))?;
    }
    if let Some(value) = &input.merchant {
        validate_text("merchant", value.as_str(), MAX_MERCHANT_LEN)?;
    }
    if let Some(value) = input.amount_minor {
        if value <= 0 {
            return Err(ValidationError::InvalidAmount);
        }
    }
    if let Some(value) = &input.currency {
        check_currency(value.as_str())?;
    }
    if let Some(value) = &input.category {
        validate_text("category", value.as_str(), MAX_CATEGORY_LEN)?;
    }
    validate_optional_text("account", as_str_opt(&input.account), MAX_ACCOUNT_LEN)?;
    validate_optional_text("note", as_str_opt(&input.note), MAX_NOTE_LEN)?;
    Ok(())
}

/// A range whose start comes after its end, by the order of the texts.
pub open spec fn range_error(from: Option<Seq<char>>, to: Option<Seq<char>>) -> Option<
    ValidationError,
> {
    match (from, to) {
        (Some(f), Some(t)) => if str_lt(t, f) {
            Some(ValidationError::InvalidRange)
        } else {
            None
        },
        _ => None,
    }
}

/// The first rule that listing filters break: exact dates, an ordered range, a
/// category and a currency code.
pub open spec fn filters_error(
    from: Option<Seq<char>>,
    to: Option<Seq<char>>,
    category: Option<Seq<char>>,
    currency: Option<Seq<char>>,
) -> Option<ValidationError> {
    or_else(
        opt_date_error(from),
        or_else(
            opt_date_error(to),
            or_else(
                range_error(from, to),
                or_else(
                    opt_text_error("category", category, MAX_CATEGORY_LEN as nat),
                    opt_currency_error(currency),
                ),
            ),
        ),
    )
}

/// Checks the filters of a listing.
pub fn validate_filters(
    from: Option<&str>,
    to: Option<&str>,
    category: Option<&str>,
    currency: Option<&str>,
) -> (r: Result<(), ValidationError>)
    ensures
        r == as_result(
            filters_error(
                opt_str_chars(from),
                opt_str_chars(to),
                opt_str_chars(category),
                opt_str_chars(currency),
            ),
        ),
{
    if let Some(value) = from {
        check_date(value)?;
    }
    if let Some(value) = to {
        check_date(value)?;
    }
    if let (Some(from), Some(to)) = (from, to) {
        if str_less(to, from) {
            return Err(ValidationError::InvalidRange);
        }
    }
    if let Some(value) = category {
        validate_text("category", value, MAX_CATEGORY_LEN)?;
    }
    if let Some(value) = currency {
        check_currency(value)?;
    }
    Ok(())
}

/// An optional text trimmed, or `None` where nothing but white space is left.
pub open spec fn normalized_optional(v: Option<Seq<char>>) -> Option<Seq<char>> {
    match v {
        Some(t) => if trim_seq(t).len() > 0 {
            Some(trim_seq(t))
        } else {
            None
        },
        None => None,
    }
}

/// Trims an optional text and drops it when nothing is left.
pub fn normalize_optional(value: Option<String>) -> (r: Option<String>)
    ensures
        opt_chars(r) == normalized_optional(opt_chars(value)),
{
    match value {
        Some(text) => {
            let trimmed = trim(text.as_str());
            if trimmed.unicode_len() > 0 {
                Some(trimmed.to_owned())
            } else {
                None
            }
        },
        None => None,
    }
}

/// A valid new expense in the form in which it is stored.
pub open spec fn normalized_model(e: NewExpenseModel) -> NewExpenseModel {
    NewExpenseModel {
        spent_on: trim_seq(e.spent_on),
        merchant: trim_seq(e.merchant),
        amount_minor: e.amount_minor,
        currency: normalized_currency(e.currency),
        category: trim_seq(e.category),
        account: normalized_optional(e.account),
        note: normalized_optional(e.note),
    }
}

/// Checks a new expense and, when it passes, gives it with its texts trimmed, its
/// currency code upper-cased, and blank account and note dropped.
pub fn normalized_new(input: NewExpense) -> (r: Result<NewExpense, ValidationError>)
    ensures
        r is Ok <==> new_expense_error(input@) is None,
        r matches Err(e) ==> new_expense_error(input@) == Some(e),
        r matches Ok(n) ==> n@ == normalized_model(input@),
{
    validate_new(&input)?;
    let currency = normalize_currency(input.currency.as_str())?;
    Ok(
        NewExpense {
            spent_on: trim(input.spent_on.as_str()).to_owned(),
            merchant: trim(input.merchant.as_str()).to_owned(),
            amount_minor: input.amount_minor,
            currency,
            category: trim(input.category.as_str()).to_owned(),
            account: normalize_optional(input.account),
            note: normalize_optional(input.note),
        },
    )
}


proof fn lemma_currency_code_stable(c: Seq<char>)
    requires
        is_currency_code(c),
    ensures
        normalized_currency(c) == c,
{
    assert forall|i: int| 0 <= i < c.len() implies !is_white_space(#[trigger] c[i]) by {
        assert(is_ascii_upper(c[i]));
    }
    lemma_trim_no_white_space(c);
    assert(normalized_currency(c) =~= c);
}

proof fn lemma_normalized_optional_stable(v: Option<Seq<char>>)
    ensures
        normalized_optional(normalized_optional(v)) == normalized_optional(v),
{
    if let Some(t) = v {
        lemma_trim_idempotent(t);
    }
}

/// A new expense that passes the rules passes them again once normalized, and
/// normalizing it again changes nothing: what the ledger stores is already in the
/// form that it would store.
pub proof fn normalization_is_idempotent(e: NewExpenseModel)
    requires
        new_expense_error(e) is None,
    ensures
        new_expense_error(normalized_model(e)) is None,
        normalized_model(normalized_model(e)) == normalized_model(e),
{
    lemma_trim_idempotent(e.spent_on);
    lemma_trim_idempotent(e.merchant);
    lemma_trim_idempotent(e.category);
    lemma_currency_code_stable(normalized_currency(e.currency));
    lemma_normalized_optional_stable(e.account);
    lemma_normalized_optional_stable(e.note);
    if let Some(t) = e.account {
        lemma_trim_idempotent(t);
    }
    if let Some(t) = e.note {
        lemma_trim_idempotent(t);
    }
}

/// An expense that passes the rules is stored with an exact date, a merchant and a
/// category that are not blank, a positive amount and a three-letter currency code.
pub proof fn accepted_expense_is_well_formed(e: NewExpenseModel)
    requires
        new_expense_error(e) is None,
    ensures
        is_exact_date(normalized_model(e).spent_on),
        normalized_model(e).merchant.len() > 0,
        normalized_model(e).amount_minor > 0,
        is_currency_code(normalized_model(e).currency),
        normalized_model(e).category.len() > 0,
{
}

} // verus!
