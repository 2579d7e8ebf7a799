use vstd::prelude::*;

verus! {

/// An expense as stored by the ledger. `amount_minor` is always an integer;
/// the currency decides how a client formats it.
#[derive(Debug, Clone, PartialEq, Eq)]
pub struct Expense {
    pub id: String,
    pub spent_on: String,
    pub merchant: String,
    pub amount_minor: i64,
    pub currency: String,
    pub category: String,
    pub account: Option<String>,
    pub note: Option<String>,
    pub created_at: i64,
    pub updated_at: i64,
}

/// An expense as a caller proposes it, before it is stored.
#[derive(Debug, Clone, PartialEq, Eq)]
pub struct NewExpense {
    pub spent_on: String,
    pub merchant: String,
    pub amount_minor: i64,
    pub currency: String,
    pub category: String,
    pub account: Option<String>,
    pub note: Option<String>,
}

/// The fields of an expense that a correction changes; `None` keeps the stored value.
#[derive(Debug, Clone, PartialEq, Eq)]
pub struct ExpensePatch {
    pub spent_on: Option<String>,
    pub merchant: Option<String>,
    pub amount_minor: Option<i64>,
    pub currency: Option<String>,
    pub category: Option<String>,
    pub account: Option<String>,
    pub note: Option<String>,
}

/// Optional restrictions on which expenses a listing returns.
#[derive(Debug, Clone, PartialEq, Eq)]
pub struct ExpenseFilters {
    pub from: Option<String>,
    pub to: Option<String>,
    pub category: Option<String>,
    pub currency: Option<String>,
    pub limit: Option<i64>,
}

#[derive(Debug, Clone, PartialEq, Eq)]
pub struct CategoryTotal {
    pub category: String,
    pub total_minor: i64,
}

#[derive(Debug, Clone, PartialEq, Eq)]
pub struct CurrencySummary {
    pub currency: String,
    pub total_minor: i64,
    pub categories: Vec<CategoryTotal>,
}

#[derive(Debug, Clone, PartialEq, Eq)]
pub struct ExpenseSummary {
    pub record_count: usize,
    pub total_minor: Option<i64>,
    pub by_currency: Vec<CurrencySummary>,
}

/// The characters of an optional string.
pub open spec fn opt_chars(o: Option<String>) -> Option<Seq<char>> {
    match o {
        Some(s) => Some(s@),
        None => None,
    }
}

/// The characters of an optional string slice.
pub open spec fn opt_str_chars(o: Option<&str>) -> Option<Seq<char>> {
    match o {
        Some(s) => Some(s@),
        None => None,
    }
}

/// An optional string borrowed as an optional string slice.
pub fn as_str_opt(o: &Option<String>) -> (r: Option<&str>)
    ensures
        opt_str_chars(r) == opt_chars(*o),
{
    match o {
        Some(s) => Some(s.as_str()),
        None => None,
    }
}

/// A new expense seen as character sequences and integers.
pub struct NewExpenseModel {
    pub spent_on: Seq<char>,
    pub merchant: Seq<char>,
    pub amount_minor: i64,
    pub currency: Seq<char>,
    pub category: Seq<char>,
    pub account: Option<Seq<char>>,
    pub note: Option<Seq<char>>,
}

impl View for NewExpense {
    type V = NewExpenseModel;

    open spec fn view(&self) -> NewExpenseModel {
        NewExpenseModel {
            spent_on: self.spent_on@,
            merchant: self.merchant@,
            amount_minor: self.amount_minor,
            currency: self.currency@,
            category: self.category@,
            account: opt_chars(self.account),
            note: opt_chars(self.note),
        }
    }
}

/// A correction seen as character sequences and integers.
pub struct PatchModel {
    pub spent_on: Option<Seq<char>>,
    pub merchant: Option<Seq<char>>,
    pub amount_minor: Option<i64>,
    pub currency: Option<Seq<char>>,
    pub category: Option<Seq<char>>,
    pub account: Option<Seq<char>>,
    pub note: Option<Seq<char>>,
}

impl View for ExpensePatch {
    type V = PatchModel;

    open spec fn view(&self) -> PatchModel {
        PatchModel {
            spent_on: opt_chars(self.spent_on),
            merchant: opt_chars(self.merchant),
            amount_minor: self.amount_minor,
            currency: opt_chars(self.currency),
            category: opt_chars(self.category),
            account: opt_chars(self.account),
            note: opt_chars(self.note),
        }
    }
}

/// Listing filters seen as character sequences and integers.
pub struct FiltersModel {
    pub from: Option<Seq<char>>,
    pub to: Option<Seq<char>>,
    pub category: Option<Seq<char>>,
    pub currency: Option<Seq<char>>,
    pub limit: Option<i64>,
}

impl View for ExpenseFilters {
    type V = FiltersModel;

    open spec fn view(&self) -> FiltersModel {
        FiltersModel {
            from: opt_chars(self.from),
            to: opt_chars(self.to),
            category: opt_chars(self.category),
            currency: opt_chars(self.currency),
            limit: self.limit,
        }
    }
}

impl Default for ExpensePatch {
    fn default() -> (r: Self)
        ensures
            r.spent_on is None,
            r.merchant is None,
            r.amount_minor is None,
            r.currency is None,
            r.category is None,
            r.account is None,
            r.note is None,
    {
        ExpensePatch {
            spent_on: None,
            merchant: None,
            amount_minor: None,
            currency: None,
            category: None,
            account: None,
            note: None,
        }
    }
}

impl Default for ExpenseFilters {
    fn default() -> (r: Self)
        ensures
            r.from is None,
            r.to is None,
            r.category is None,
            r.currency is None,
            r.limit is None,
    {
        ExpenseFilters { from: None, to: None, category: None, currency: None, limit: None }
    }
}

/// The currency a new expense has when its input names none.
pub fn default_currency() -> (r: String)
    ensures
        r@ == "USD"@,
{
    String::from_str("USD")
}

/// `chrono::Utc::now().timestamp_millis()`: the current time in milliseconds
/// since the Unix epoch. Nothing is claimed of the value: it is the clock's.
#[verifier::external_body]
pub fn now_ms() -> i64 {
    chrono::Utc::now().timestamp_millis()
}

} // verus!
