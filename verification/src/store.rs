use vstd::prelude::*;

use crate::db::{
    SqlParam, SqlValue, error_text, execute, execute_batch, open_in_memory, params_of, prepare,
    query_expenses, query_integer, to_sqlite_values,
};
use crate::models::{
    Expense, ExpenseFilters, ExpensePatch, ExpenseSummary, FiltersModel, NewExpense,
    NewExpenseModel, as_str_opt, opt_chars,
};

use crate::summary::{is_summary_of, summarize, totals_fit};
use crate::text::{str_equal, str_less, str_lt, trim, trim_seq};
use crate::validation::{
    ValidationError, as_result, filters_error, is_currency_code, new_expense_error,
    normalize_currency, normalized_currency, normalized_new, patch_error, validate_filters,
    validate_patch,
};

verus! {

/// How many expenses a listing returns when it names no limit.
pub const DEFAULT_LIMIT: i64 = 200;

/// The most expenses that one listing returns.
pub const MAX_LIMIT: i64 = 500;

/// The table of expenses and its indexes.
pub const SCHEMA: &'static str = "PRAGMA journal_mode = WAL;
PRAGMA synchronous = NORMAL;
PRAGMA busy_timeout = 5000;
CREATE TABLE IF NOT EXISTS expenses (
  id TEXT PRIMARY KEY,
  spent_on TEXT NOT NULL,
  merchant TEXT NOT NULL,
  amount_minor INTEGER NOT NULL,
  currency TEXT NOT NULL,
  category TEXT NOT NULL,
  account TEXT,
  note TEXT,
  created_at INTEGER NOT NULL,
  updated_at INTEGER NOT NULL
);
CREATE INDEX IF NOT EXISTS idx_expenses_spent_on ON expenses(spent_on DESC, created_at DESC);
CREATE INDEX IF NOT EXISTS idx_expenses_category ON expenses(category, spent_on DESC);";

pub const INSERT_SQL: &'static str = "INSERT INTO expenses (id, spent_on, merchant, amount_minor, currency, category, account, note, created_at, updated_at) VALUES (?, ?, ?, ?, ?, ?, ?, ?, ?, ?)";

pub const UPDATE_SQL: &'static str = "UPDATE expenses SET spent_on = ?, merchant = ?, amount_minor = ?, currency = ?, category = ?, account = ?, note = ?, updated_at = ? WHERE id = ?";

pub const DELETE_SQL: &'static str = "DELETE FROM expenses WHERE id = ?";

pub const SELECT_BY_ID_SQL: &'static str = "SELECT id, spent_on, merchant, amount_minor, currency, category, account, note, created_at, updated_at FROM expenses WHERE id = ?";

pub const COUNT_SQL: &'static str = "SELECT COUNT(*) FROM expenses";

/// The start of a listing, to which the filters add their conditions.
pub const LIST_SELECT: &'static str = "SELECT id, spent_on, merchant, amount_minor, currency, category, account, note, created_at, updated_at FROM expenses WHERE 1 = 1";

/// The end of a listing: newest first, and a bound.
pub const LIST_ORDER: &'static str = " ORDER BY spent_on DESC, created_at DESC LIMIT ?";

pub const FROM_CLAUSE: &'static str = " AND spent_on >= ?";

pub const TO_CLAUSE: &'static str = " AND spent_on <= ?";

pub const CATEGORY_CLAUSE: &'static str = " AND category = ?";

pub const CURRENCY_CLAUSE: &'static str = " AND currency = ?";

/// Why a request to the ledger failed.
#[derive(Debug)]
pub enum StoreError {
    /// The input broke a rule.
    Invalid(ValidationError),
    /// No expense has the id.
    NotFound,
    /// The row just written could not be read back.
    InsertedMissing,
    /// The row just corrected could not be read back.
    UpdatedMissing,
    /// The database counted a number of rows that `usize` cannot hold.
    CountOutOfRange,
    /// A total of the summary does not fit in `i64`.
    TotalOutOfRange,
    /// SQLite reported an error.
    Database(rusqlite::Error),
}

impl StoreError {
    /// The HTTP status of this failure: 422 for a broken rule, 404 for a missing
    /// expense, 500 for everything else.
    pub fn http_status(&self) -> (r: u16)
        ensures
            r == (match self {
                StoreError::Invalid(_) => 422u16,
                StoreError::NotFound => 404u16,
                _ => 500u16,
            }),
    {
        match self {
            StoreError::Invalid(_) => 422,
            StoreError::NotFound => 404,
            _ => 500,
        }
    }

    /// The message of this failure where the library fixes it: every failure but one
    /// that SQLite reported, whose text is SQLite's.
    pub open spec fn known_message(&self) -> Option<Seq<char>> {
        match self {
            StoreError::Invalid(e) => Some(e.message_spec()),
            StoreError::NotFound => Some("expense not found"@),
            StoreError::InsertedMissing => Some("inserted expense disappeared"@),
            StoreError::UpdatedMissing => Some("updated expense disappeared"@),
            StoreError::CountOutOfRange => Some("expense count did not fit usize"@),
            StoreError::TotalOutOfRange => Some("expense total did not fit i64"@),
            StoreError::Database(_) => None,
        }
    }

    /// The message a caller is shown for this failure.
    pub fn message(&self) -> (r: String)
        ensures
            self.known_message() matches Some(m) ==> r@ == m,
    {
        match self {
            StoreError::Invalid(e) => e.message(),
            StoreError::NotFound => String::from_str("expense not found"),
            StoreError::InsertedMissing => String::from_str("inserted expense disappeared"),
            StoreError::UpdatedMissing => String::from_str("updated expense disappeared"),
            StoreError::CountOutOfRange => String::from_str("expense count did not fit usize"),
            StoreError::TotalOutOfRange => String::from_str("expense total did not fit i64"),
            StoreError::Database(e) => error_text(e),
        }
    }
}

fn db<T>(r: Result<T, rusqlite::Error>) -> (out: Result<T, StoreError>)
    ensures
        match r {
            Ok(v) => out == Ok::<T, StoreError>(v),
            Err(e) => out == Err::<T, StoreError>(StoreError::Database(e)),
        },
{
    match r {
        Ok(v) => Ok(v),
        Err(e) => Err(StoreError::Database(e)),
    }
}

fn invalid<T>(r: Result<T, ValidationError>) -> (out: Result<T, StoreError>)
    ensures
        match r {
            Ok(v) => out == Ok::<T, StoreError>(v),
            Err(e) => out == Err::<T, StoreError>(StoreError::Invalid(e)),
        },
{
    match r {
        Ok(v) => Ok(v),
        Err(e) => Err(StoreError::Invalid(e)),
    }
}

/// The error that a broken rule gives, where a rule is broken.
pub open spec fn rule_failure(e: Option<ValidationError>) -> Option<StoreError> {
    match e {
        Some(e) => Some(StoreError::Invalid(e)),
        None => None,
    }
}

/// The bound of a listing: the one asked for, or the default, held to `1..=MAX_LIMIT`.
pub open spec fn limit_of(limit: Option<i64>) -> i64 {
    let asked = match limit {
        Some(n) => n,
        None => DEFAULT_LIMIT,
    };
    if asked < 1 {
        1
    } else if asked > MAX_LIMIT {
        MAX_LIMIT
    } else {
        asked
    }
}

/// `filters.limit.unwrap_or(DEFAULT_LIMIT).clamp(1, MAX_LIMIT)`.
pub fn effective_limit(limit: Option<i64>) -> (r: i64)
    ensures
        r == limit_of(limit),
        1 <= r <= MAX_LIMIT,
{
    let asked = match limit {
        Some(n) => n,
        None => DEFAULT_LIMIT,
    };
    if asked < 1 {
        1
    } else if asked > MAX_LIMIT {
        MAX_LIMIT
    } else {
        asked
    }
}

/// The currency a listing compares with: the normalized code where the text is
/// one, else the text as given.
pub open spec fn currency_filter_value(c: Seq<char>) -> Seq<char> {
    if is_currency_code(normalized_currency(c)) {
        normalized_currency(c)
    } else {
        c
    }
}

/// `clause` where a filter is given, nothing where it is not.
pub open spec fn clause_if(given: bool, clause: Seq<char>) -> Seq<char> {
    if given {
        clause
    } else {
        Seq::empty()
    }
}

/// The conditions that the filters add to a listing.
pub open spec fn filter_sql(f: FiltersModel) -> Seq<char> {
    clause_if(f.from is Some, FROM_CLAUSE@) + clause_if(f.to is Some, TO_CLAUSE@) + clause_if(
        f.category is Some,
        CATEGORY_CLAUSE@,
    ) + clause_if(f.currency is Some, CURRENCY_CLAUSE@)
}

/// The values that the filters bind, in the order of their conditions.
pub open spec fn filter_params(f: FiltersModel) -> Seq<SqlParam> {
    (match f.from {
        Some(v) => seq![SqlParam::Text(v)],
        None => Seq::empty(),
    }) + (match f.to {
        Some(v) => seq![SqlParam::Text(v)],
        None => Seq::empty(),
    }) + (match f.category {
        Some(v) => seq![SqlParam::Text(trim_seq(v))],
        None => Seq::empty(),
    }) + (match f.currency {
        Some(v) => seq![SqlParam::Text(currency_filter_value(v))],
        None => Seq::empty(),
    })
}

/// Adds the conditions of the filters to a listing's text and their values to its
/// bound values.
pub fn append_filters(sql: &mut String, values: &mut Vec<SqlValue>, filters: &ExpenseFilters)
    ensures
        final(sql)@ == old(sql)@ + filter_sql(filters@),
        params_of(final(values)@) == params_of(old(values)@) + filter_params(filters@),
{
    let ghost sql0 = sql@;
    let ghost values0 = params_of(values@);
    if let Some(from) = &filters.from {
        sql.append(FROM_CLAUSE);
        values.push(SqlValue::Text(from.clone()));
    }
    if let Some(to) = &filters.to {
        sql.append(TO_CLAUSE);
        values.push(SqlValue::Text(to.clone()));
    }
    if let Some(category) = &filters.category {
        sql.append(CATEGORY_CLAUSE);
        values.push(SqlValue::Text(trim(category.as_str()).to_owned()));
    }
    if let Some(currency) = &filters.currency {
        sql.append(CURRENCY_CLAUSE);
        let value = match normalize_currency(currency.as_str()) {
            Ok(code) => code,
            Err(_) => currency.clone(),
        };
        values.push(SqlValue::Text(value));
    }
    assert(sql@ =~= sql0 + filter_sql(filters@));
    assert(params_of(values@) =~= values0 + filter_params(filters@));
}


/// The text and bound values of a listing.
pub fn list_query(filters: &ExpenseFilters) -> (r: (String, Vec<SqlValue>))
    ensures
        r.0@ == LIST_SELECT@ + filter_sql(filters@) + LIST_ORDER@,
        params_of(r.1@) == filter_params(filters@).push(
            SqlParam::Integer(limit_of(filters@.limit)),
        ),
{
    let mut sql = String::from_str(LIST_SELECT);
    let mut values: Vec<SqlValue> = Vec::new();
    append_filters(&mut sql, &mut values, filters);
    sql.append(LIST_ORDER);
    let ghost before = values@;
    values.push(SqlValue::Integer(effective_limit(filters.limit)));
    proof {
        assert(params_of(values@) =~= params_of(before).push(
            SqlParam::Integer(limit_of(filters@.limit)),
        ));
    }
    (sql, values)
}

pub open spec fn opt_param(o: Option<Seq<char>>) -> SqlParam {
    match o {
        Some(t) => SqlParam::Text(t),
        None => SqlParam::Null,
    }
}

fn opt_value(o: &Option<String>) -> (r: SqlValue)
    ensures
        r@ == opt_param(opt_chars(*o)),
{
    match o {
        Some(t) => SqlValue::Text(t.clone()),
        None => SqlValue::Null,
    }
}

/// The values of a new row, in the order of `INSERT_SQL`'s columns.
pub open spec fn insert_params(id: Seq<char>, e: NewExpenseModel, now: i64) -> Seq<SqlParam> {
    seq![
        SqlParam::Text(id),
        SqlParam::Text(e.spent_on),
        SqlParam::Text(e.merchant),
        SqlParam::Integer(e.amount_minor),
        SqlParam::Text(e.currency),
        SqlParam::Text(e.category),
        opt_param(e.account),
        opt_param(e.note),
        SqlParam::Integer(now),
        SqlParam::Integer(now),
    ]
}

/// Binds a new row: the id, the fields of the expense, and `now` as both its
/// creation and its last change.
pub fn insert_values(id: &str, input: &NewExpense, now: i64) -> (r: Vec<SqlValue>)
    ensures
        params_of(r@) == insert_params(id@, input@, now),
{
    let mut v: Vec<SqlValue> = Vec::new();
    v.push(SqlValue::Text(id.to_owned()));
    v.push(SqlValue::Text(input.spent_on.clone()));
    v.push(SqlValue::Text(input.merchant.clone()));
    v.push(SqlValue::Integer(input.amount_minor));
    v.push(SqlValue::Text(input.currency.clone()));
    v.push(SqlValue::Text(input.category.clone()));
    v.push(opt_value(&input.account));
    v.push(opt_value(&input.note));
    v.push(SqlValue::Integer(now));
    v.push(SqlValue::Integer(now));
    assert(params_of(v@) =~= insert_params(id@, input@, now));
    v
}

/// The values of a corrected row, in the order of `UPDATE_SQL`'s placeholders.
pub open spec fn update_params(e: NewExpenseModel, now: i64, id: Seq<char>) -> Seq<SqlParam> {
    seq![
        SqlParam::Text(e.spent_on),
        SqlParam::Text(e.merchant),
        SqlParam::Integer(e.amount_minor),
        SqlParam::Text(e.currency),
        SqlParam::Text(e.category),
        opt_param(e.account),
        opt_param(e.note),
        SqlParam::Integer(now),
        SqlParam::Text(id),
    ]
}

/// Binds a correction: the new fields, `now` as the last change, and the id.
pub fn update_values(next: &NewExpense, now: i64, id: &str) -> (r: Vec<SqlValue>)
    ensures
        params_of(r@) == update_params(next@, now, id@),
{
    let mut v: Vec<SqlValue> = Vec::new();
    v.push(SqlValue::Text(next.spent_on.clone()));
    v.push(SqlValue::Text(next.merchant.clone()));
    v.push(SqlValue::Integer(next.amount_minor));
    v.push(SqlValue::Text(next.currency.clone()));
    v.push(SqlValue::Text(next.category.clone()));
    v.push(opt_value(&next.account));
    v.push(opt_value(&next.note));
    v.push(SqlValue::Integer(now));
    v.push(SqlValue::Text(id.to_owned()));
    assert(params_of(v@) =~= update_params(next@, now, id@));
    v
}

pub open spec fn patched<T>(new: Option<T>, current: T) -> T {
    match new {
        Some(v) => v,
        None => current,
    }
}

pub open spec fn patched_opt<T>(new: Option<T>, current: Option<T>) -> Option<T> {
    match new {
        Some(v) => Some(v),
        None => current,
    }
}

/// A stored expense with a correction laid over it: each field that the correction
/// names takes its value, every other field keeps the stored one.
pub open spec fn merged_model(current: Expense, patch: crate::models::PatchModel) -> NewExpenseModel {
    NewExpenseModel {
        spent_on: patched(patch.spent_on, current.spent_on@),
        merchant: patched(patch.merchant, current.merchant@),
        amount_minor: patched(patch.amount_minor, current.amount_minor),
        currency: patched(patch.currency, current.currency@),
        category: patched(patch.category, current.category@),
        account: patched_opt(patch.account, opt_chars(current.account)),
        note: patched_opt(patch.note, opt_chars(current.note)),
    }
}

fn pick(new: Option<String>, current: String) -> (r: String)
    ensures
        r@ == patched(opt_chars(new), current@),
{
    match new {
        Some(v) => v,
        None => current,
    }
}

fn pick_opt(new: Option<String>, current: Option<String>) -> (r: Option<String>)
    ensures
        opt_chars(r) == patched_opt(opt_chars(new), opt_chars(current)),
{
    match new {
        Some(v) => Some(v),
        None => current,
    }
}

/// Lays a correction over a stored expense.
pub fn merge_patch(current: Expense, patch: ExpensePatch) -> (r: NewExpense)
    ensures
        r@ == merged_model(current, patch@),
{
    let amount_minor = match patch.amount_minor {
        Some(a) => a,
        None => current.amount_minor,
    };
    NewExpense {
        spent_on: pick(patch.spent_on, current.spent_on),
        merchant: pick(patch.merchant, current.merchant),
        amount_minor,
        currency: pick(patch.currency, current.currency),
        category: pick(patch.category, current.category),
        account: pick_opt(patch.account, current.account),
        note: pick_opt(patch.note, current.note),
    }
}

/// The value bound to `SELECT_BY_ID_SQL` and `DELETE_SQL`: the id.
pub open spec fn id_params(id: Seq<char>) -> Seq<SqlParam> {
    seq![SqlParam::Text(id)]
}

/// Binds the id of a lookup by id.
pub fn select_values(id: &str) -> (r: Vec<SqlValue>)
    ensures
        params_of(r@) == id_params(id@),
{
    let mut v: Vec<SqlValue> = Vec::new();
    v.push(SqlValue::Text(id.to_owned()));
    assert(params_of(v@) =~= id_params(id@));
    v
}

/// Binds the id of a deletion.
pub fn delete_values(id: &str) -> (r: Vec<SqlValue>)
    ensures
        params_of(r@) == id_params(id@),
{
    select_values(id)
}

/// What a correction writes, once the stored expense has been looked up: `NotFound`
/// where there is none; the first rule that the stored expense with the correction
/// laid over it breaks; else that expense normalized.
pub fn correction(found: Option<Expense>, patch: ExpensePatch) -> (r: Result<NewExpense, StoreError>)
    ensures
        found is None ==> r matches Err(StoreError::NotFound),
        found matches Some(c) ==> (match new_expense_error(merged_model(c, patch@)) {
            Some(e) => r == Err::<NewExpense, StoreError>(StoreError::Invalid(e)),
            None => r matches Ok(n) && n@ == corrected(c, patch@),
        }),
{
    match found {
        Some(current) => invalid(normalized_new(merge_patch(current, patch))),
        None => Err(StoreError::NotFound),
    }
}

/// The record that a write gives back: the row read back after it, or `missing`
/// where the read found none.
pub fn read_back(found: Option<Expense>, missing: StoreError) -> (r: Result<Expense, StoreError>)
    ensures
        r == (match found {
            Some(e) => Ok::<Expense, StoreError>(e),
            None => Err::<Expense, StoreError>(missing),
        }),
{
    match found {
        Some(e) => Ok(e),
        None => Err(missing),
    }
}

/// The filters of the listing that a summary is made from: the caller's, with the
/// limit set to `MAX_LIMIT` whatever the caller asked for.
pub fn summary_filters(filters: ExpenseFilters) -> (r: ExpenseFilters)
    ensures
        r@.from == filters@.from,
        r@.to == filters@.to,
        r@.category == filters@.category,
        r@.currency == filters@.currency,
        r@.limit == Some(MAX_LIMIT),
{
    let mut filters = filters;
    filters.limit = Some(MAX_LIMIT);
    filters
}

/// The summary of the listed rows, or `TotalOutOfRange` where a total does not fit
/// in `i64`.
pub fn summary_outcome(rows: &Vec<Expense>) -> (r: Result<ExpenseSummary, StoreError>)
    ensures
        r is Ok <==> totals_fit(rows@),
        r matches Ok(out) ==> is_summary_of(rows@, out),
        r matches Err(e) ==> e is TotalOutOfRange,
{
    match summarize(rows) {
        Some(out) => Ok(out),
        None => Err(StoreError::TotalOutOfRange),
    }
}

/// Two optional texts hold the same characters, or are both absent.
fn same_optional_text(a: &Option<String>, b: &Option<String>) -> (r: bool)
    ensures
        r == (opt_chars(*a) == opt_chars(*b)),
{
    match (a, b) {
        (Some(x), Some(y)) => str_equal(x.as_str(), y.as_str()),
        (None, None) => true,
        _ => false,
    }
}

/// The row that a write gives back, where it is the row written: its fields are
/// `expected` and its timestamps the ones written; `None` where no row, or another
/// row, was read back.
pub fn written_row(found: Option<Expense>, expected: &NewExpense, created_at: i64, updated_at: i64)
    -> (r: Option<Expense>)
    ensures
        r == (match found {
            Some(e) => if stored_model(e) == expected@ && e.created_at == created_at
                && e.updated_at == updated_at {
                Some(e)
            } else {
                None::<Expense>
            },
            None => None::<Expense>,
        }),
{
    match found {
        Some(e) => {
            let same = str_equal(e.spent_on.as_str(), expected.spent_on.as_str())
                && str_equal(e.merchant.as_str(), expected.merchant.as_str())
                && e.amount_minor == expected.amount_minor
                && str_equal(e.currency.as_str(), expected.currency.as_str())
                && str_equal(e.category.as_str(), expected.category.as_str())
                && same_optional_text(&e.account, &expected.account)
                && same_optional_text(&e.note, &expected.note)
                && e.created_at == created_at && e.updated_at == updated_at;
            if same {
                Some(e)
            } else {
                None
            }
        },
        None => None,
    }
}

/// The stored expense with `id` among the rows of a lookup: the first row, where its
/// id is `id`.
pub fn row_with_id(found: Option<Expense>, id: &str) -> (r: Option<Expense>)
    ensures
        r == (match found {
            Some(e) => if e.id@ == id@ {
                Some(e)
            } else {
                None::<Expense>
            },
            None => None::<Expense>,
        }),
{
    match found {
        Some(e) => if str_equal(e.id.as_str(), id) {
            Some(e)
        } else {
            None
        },
        None => None,
    }
}

/// A stored expense that the filters of a listing admit, each condition compared as
/// SQLite compares text (by the bytes of UTF-8): on or after `from`, on or before
/// `to`, in the trimmed category, in the currency that the filter names.
pub open spec fn admits(f: FiltersModel, e: Expense) -> bool {
    &&& (f.from matches Some(d) ==> !str_lt(e.spent_on@, d))
    &&& (f.to matches Some(d) ==> !str_lt(d, e.spent_on@))
    &&& (f.category matches Some(c) ==> e.category@ == trim_seq(c))
    &&& (f.currency matches Some(c) ==> e.currency@ == currency_filter_value(c))
}

/// Whether the filters admit the expense.
pub fn admitted(filters: &ExpenseFilters, e: &Expense) -> (r: bool)
    ensures
        r == admits(filters@, *e),
{
    if let Some(from) = &filters.from {
        if str_less(e.spent_on.as_str(), from.as_str()) {
            return false;
        }
    }
    if let Some(to) = &filters.to {
        if str_less(to.as_str(), e.spent_on.as_str()) {
            return false;
        }
    }
    if let Some(category) = &filters.category {
        if !str_equal(e.category.as_str(), trim(category.as_str())) {
            return false;
        }
    }
    if let Some(currency) = &filters.currency {
        let same = match normalize_currency(currency.as_str()) {
            Ok(code) => str_equal(e.currency.as_str(), code.as_str()),
            Err(_) => str_equal(e.currency.as_str(), currency.as_str()),
        };
        if !same {
            return false;
        }
    }
    true
}

/// The rows of a listing as the filters ask for them: in the order given, only those
/// that the filters admit, and at most the effective limit of them. Where every row is
/// admitted and there are no more than the limit, they are all kept.
pub fn admitted_rows(rows: Vec<Expense>, filters: &ExpenseFilters) -> (r: Vec<Expense>)
    ensures
        r@.len() <= limit_of(filters@.limit),
        forall|i: int| 0 <= i < r@.len() ==> admits(filters@, #[trigger] r@[i]),
        forall|i: int| 0 <= i < r@.len() ==> rows@.contains(#[trigger] r@[i]),
        (forall|i: int| 0 <= i < rows@.len() ==> admits(filters@, #[trigger] rows@[i]))
            && rows@.len() <= limit_of(filters@.limit) ==> r@ == rows@,
{
    let limit = effective_limit(filters.limit);
    let ghost all = rows@;
    let mut rest = rows;
    let mut out: Vec<Expense> = Vec::new();
    while rest.len() > 0
        invariant
            limit == limit_of(filters@.limit),
            0 <= rest@.len() <= all.len(),
            rest@ == all.subrange(all.len() - rest@.len(), all.len() as int),
            out@.len() <= limit,
            forall|i: int| 0 <= i < out@.len() ==> admits(filters@, #[trigger] out@[i]),
            forall|i: int| 0 <= i < out@.len() ==> all.contains(#[trigger] out@[i]),
            (forall|i: int| 0 <= i < all.len() - rest@.len() ==> admits(filters@, #[trigger] all[i]))
                && all.len() <= limit ==> out@ == all.subrange(0, all.len() - rest@.len()),
        decreases rest@.len(),
    {
        let ghost k = all.len() - rest@.len();
        let e = rest.remove(0);
        assert(e == all[k]);
        assert(rest@ =~= all.subrange(k + 1, all.len() as int));
        assert(all.contains(e));
        let ghost before = out@;
        if admitted(filters, &e) && out.len() < limit as usize {
            out.push(e);
            assert(forall|i: int| 0 <= i < before.len() ==> out@[i] == before[i]);
        }
        assert((forall|i: int| 0 <= i < k + 1 ==> admits(filters@, #[trigger] all[i])) && all.len()
            <= limit ==> out@ =~= all.subrange(0, k + 1)) by {
            if (forall|i: int| 0 <= i < k + 1 ==> admits(filters@, #[trigger] all[i])) && all.len()
                <= limit {
                assert(admits(filters@, all[k]));
                assert(before =~= all.subrange(0, k));
            }
        }
    }
    assert(all.subrange(0, all.len() as int) =~= all);
    out
}

/// `a` comes no later than `b` in a listing: a later date first (in the byte order of
/// the texts, as SQLite orders them), and on one date the later creation first.
pub open spec fn listed_before(a: Expense, b: Expense) -> bool {
    str_lt(b.spent_on@, a.spent_on@) || (a.spent_on@ == b.spent_on@ && a.created_at
        >= b.created_at)
}

/// The expenses are in listing order: newest first.
pub open spec fn newest_first(s: Seq<Expense>) -> bool {
    forall|i: int, j: int| 0 <= i < j < s.len() ==> listed_before(#[trigger] s[i], #[trigger] s[j])
}

proof fn lemma_listed_before_total(a: Expense, b: Expense)
    ensures
        listed_before(a, b) || listed_before(b, a),
{
    crate::text::lemma_str_lt_order(a.spent_on@, b.spent_on@, a.spent_on@);
}

proof fn lemma_listed_before_transitive(a: Expense, b: Expense, c: Expense)
    requires
        listed_before(a, b),
        listed_before(b, c),
    ensures
        listed_before(a, c),
{
    crate::text::lemma_str_lt_order(c.spent_on@, b.spent_on@, a.spent_on@);
}

fn is_listed_before(a: &Expense, b: &Expense) -> (r: bool)
    ensures
        r == listed_before(*a, *b),
{
    str_less(b.spent_on.as_str(), a.spent_on.as_str()) || (str_equal(
        a.spent_on.as_str(),
        b.spent_on.as_str(),
    ) && a.created_at >= b.created_at)
}

/// The rows in listing order, newest first: the same rows, reordered, and left as they
/// are where they already are in that order.
pub fn in_listing_order(rows: Vec<Expense>) -> (r: Vec<Expense>)
    ensures
        newest_first(r@),
        r@.to_multiset() == rows@.to_multiset(),
        newest_first(rows@) ==> r@ == rows@,
{
    let ghost all = rows@;
    let mut rest = rows;
    let mut out: Vec<Expense> = Vec::new();
    proof {
        assert(all.subrange(0, 0) =~= Seq::<Expense>::empty());
        assert(out@ =~= Seq::<Expense>::empty());
    }
    while rest.len() > 0
        invariant
            0 <= rest@.len() <= all.len(),
            rest@ == all.subrange(all.len() - rest@.len(), all.len() as int),
            newest_first(out@),
            out@.to_multiset() == all.subrange(0, all.len() - rest@.len()).to_multiset(),
            newest_first(all) ==> out@ == all.subrange(0, all.len() - rest@.len()),
        decreases rest@.len(),
    {
        let ghost k = all.len() - rest@.len();
        let e = rest.remove(0);
        assert(e == all[k]);
        assert(rest@ =~= all.subrange(k + 1, all.len() as int));
        let mut p: usize = 0;
        while p < out.len() && is_listed_before(&out[p], &e)
            invariant
                p <= out@.len(),
                forall|i: int| 0 <= i < p ==> listed_before(#[trigger] out@[i], e),
            decreases out@.len() - p,
        {
            p = p + 1;
        }
        let ghost before = out@;
        proof {
            if newest_first(all) {
                assert forall|i: int| 0 <= i < before.len() implies listed_before(
                    #[trigger] before[i],
                    e,
                ) by {
                    assert(before[i] == all[i]);
                }
                if p < before.len() {
                    assert(listed_before(before[p as int], e));
                }
                assert(p == before.len());
            }
            if p < before.len() {
                lemma_listed_before_total(before[p as int], e);
            }
        }
        out.insert(p, e);
        proof {
            let n = out@;
            assert(n =~= before.insert(p as int, e));
            assert forall|i: int, j: int| 0 <= i < j < n.len() implies listed_before(
                #[trigger] n[i],
                #[trigger] n[j],
            ) by {
                if j < p {
                    assert(listed_before(before[i], before[j]));
                } else if j == p {
                } else if i < p {
                    assert(listed_before(before[i], before[j - 1]));
                } else if i == p {
                    if j - 1 > p {
                        assert(listed_before(before[p as int], before[j - 1]));
                        lemma_listed_before_transitive(e, before[p as int], before[j - 1]);
                    }
                } else {
                    assert(listed_before(before[i - 1], before[j - 1]));
                }
            }
            assert(all.subrange(0, k + 1) =~= all.subrange(0, k).push(all[k]));
            vstd::seq_lib::to_multiset_insert(before, p as int, e);
            vstd::seq_lib::to_multiset_build(all.subrange(0, k), all[k]);
            assert(all.subrange(0, k).push(all[k]).to_multiset() == all.subrange(0, k).to_multiset().insert(
                all[k],
            ));
            assert(n.to_multiset() == all.subrange(0, k + 1).to_multiset());
            if newest_first(all) {
                assert(n =~= all.subrange(0, k + 1));
            }
        }
    }
    proof {
        assert(all.subrange(0, all.len() as int) =~= all);
    }
    out
}

/// A deletion that changed no row names no stored expense.
pub fn deletion_outcome(changed: usize) -> (r: Result<(), StoreError>)
    ensures
        r is Ok <==> changed > 0,
        r matches Err(e) ==> e is NotFound,
{
    if changed == 0 {
        Err(StoreError::NotFound)
    } else {
        Ok(())
    }
}

/// `usize::try_from` of a row count.
pub fn count_to_usize(count: i64) -> (r: Result<usize, StoreError>)
    ensures
        r is Ok <==> 0 <= count <= usize::MAX,
        r matches Ok(n) ==> n == count,
        r matches Err(e) ==> e is CountOutOfRange,
{
    if count < 0 {
        return Err(StoreError::CountOutOfRange);
    }
    let wide = count as u64;
    if wide > usize::MAX as u64 {
        return Err(StoreError::CountOutOfRange);
    }
    Ok(wide as usize)
}

/// The first row of a query, if it gave one.
pub fn first_row(rows: Vec<Expense>) -> (r: Option<Expense>)
    ensures
        r == (if rows@.len() > 0 {
            Some(rows@[0])
        } else {
            None::<Expense>
        }),
{
    let mut rows = rows;
    if rows.len() > 0 {
        Some(rows.remove(0))
    } else {
        None
    }
}


/// The ledger: one SQLite database holding the table of expenses.
pub struct ExpenseStore {
    conn: rusqlite::Connection,
}

impl ExpenseStore {
    /// The connection to the database that holds the ledger.
    pub closed spec fn connection(&self) -> rusqlite::Connection {
        self.conn
    }

    /// Sets up the table of expenses on an open connection; the ledger then works on
    /// that connection.
    pub fn from_connection(conn: rusqlite::Connection) -> (r: Result<ExpenseStore, StoreError>)
        ensures
            r matches Ok(store) ==> store.connection() == conn,
            r matches Err(e) ==> e is Database,
    {
        db(execute_batch(&conn, SCHEMA))?;
        Ok(ExpenseStore { conn })
    }

    /// A ledger in a new private in-memory database.
    pub fn open_memory() -> (r: Result<ExpenseStore, StoreError>)
        ensures
            r matches Err(e) ==> e is Database,
    {
        let conn = db(open_in_memory())?;
        Self::from_connection(conn)
    }

    /// The stored expense with this id, if there is one: the first row of
    /// `SELECT_BY_ID_SQL` with the id bound by `select_values`.
    fn get_locked(&self, id: &str) -> (r: Result<Option<Expense>, StoreError>)
        ensures
            r matches Ok(Some(c)) ==> c.id@ == id@,
            r matches Err(e) ==> e is Database,
    {
        let mut stmt = db(prepare(&self.conn, SELECT_BY_ID_SQL))?;
        let values = select_values(id);
        let rows = db(query_expenses(&mut stmt, to_sqlite_values(&values)))?;
        Ok(row_with_id(first_row(rows), id))
    }

    /// Records a new expense, normalized, under a fresh id, and gives it as stored.
    /// An expense that breaks a rule is refused with that rule's error and nothing is
    /// written. The row read back is given only where it holds what was written;
    /// else the write counts as lost (`InsertedMissing`).
    pub fn insert(&self, input: NewExpense) -> (r: Result<Expense, StoreError>)
        ensures
            new_expense_error(input@) is Some ==> r == Err::<Expense, StoreError>(
                StoreError::Invalid(new_expense_error(input@).unwrap()),
            ),
            new_expense_error(input@) is None ==> !(r matches Err(StoreError::Invalid(_))),
            r matches Err(e) ==> e is Invalid || e is Database || e is InsertedMissing,
            r matches Ok(e) ==> stored_model(e) == crate::validation::normalized_model(input@) && e.created_at
                == e.updated_at,
    {
        let input = invalid(normalized_new(input))?;
        let id = new_expense_id();
        let now = crate::models::now_ms();
        let values = insert_values(id.as_str(), &input, now);
        db(execute(&self.conn, INSERT_SQL, to_sqlite_values(&values)))?;
        let found = self.get_locked(id.as_str())?;
        read_back(written_row(found, &input, now, now), StoreError::InsertedMissing)
    }

    /// The stored expenses that the filters admit, newest first, at most the
    /// effective limit of them. Filters that break a rule are refused with that
    /// rule's error. The rows that the database gives are held to the filters, the
    /// limit and the order before they are given on.
    pub fn list(&self, filters: ExpenseFilters) -> (r: Result<Vec<Expense>, StoreError>)
        ensures
            rule_failure(listing_error(filters@)) matches Some(e) ==> r == Err::<
                Vec<Expense>,
                StoreError,
            >(e),
            listing_error(filters@) is None ==> !(r matches Err(StoreError::Invalid(_))),
            r matches Err(e) ==> e is Invalid || e is Database,
            r matches Ok(v) ==> v@.len() <= limit_of(filters@.limit),
            r matches Ok(v) ==> forall|i: int|
                0 <= i < v@.len() ==> admits(filters@, #[trigger] v@[i]),
            r matches Ok(v) ==> newest_first(v@),
    {
        invalid(
            validate_filters(
                as_str_opt(&filters.from),
                as_str_opt(&filters.to),
                as_str_opt(&filters.category),
                as_str_opt(&filters.currency),
            ),
        )?;
        let (sql, values) = list_query(&filters);
        let mut stmt = db(prepare(&self.conn, sql.as_str()))?;
        let rows = db(query_expenses(&mut stmt, to_sqlite_values(&values)))?;
        let kept = admitted_rows(rows, &filters);
        let ordered = in_listing_order(kept);
        proof {
            vstd::seq_lib::to_multiset_len(ordered@);
            vstd::seq_lib::to_multiset_len(kept@);
            assert forall|i: int| 0 <= i < ordered@.len() implies admits(
                filters@,
                #[trigger] ordered@[i],
            ) by {
                assert(ordered@.contains(ordered@[i]));
                vstd::seq_lib::to_multiset_contains(ordered@, ordered@[i]);
                vstd::seq_lib::to_multiset_contains(kept@, ordered@[i]);
                let j = choose|j: int| 0 <= j < kept@.len() && kept@[j] == ordered@[i];
                assert(admits(filters@, kept@[j]));
            }
        }
        Ok(ordered)
    }

    /// Corrects a stored expense: the correction is checked, laid over the stored
    /// fields, and the result normalized and checked again before it is written. A
    /// correction that breaks a rule is refused with that rule's error. The row read
    /// back is given only where it holds what was written (`UpdatedMissing` else).
    pub fn update(&self, id: &str, patch: ExpensePatch) -> (r: Result<Expense, StoreError>)
        ensures
            patch_error(patch@) is Some ==> r == Err::<Expense, StoreError>(
                StoreError::Invalid(patch_error(patch@).unwrap()),
            ),
            r matches Err(StoreError::Invalid(e)) ==> patch_error(patch@) == Some(e) || exists|
                c: Expense,
            | new_expense_error(merged_model(c, patch@)) == Some(e),
            r matches Err(e) ==> e is Invalid || e is NotFound || e is Database
                || e is UpdatedMissing,
            r matches Ok(e) ==> e.id@ == id@ && exists|c: Expense|
                c.id@ == id@ && e.created_at == c.created_at && stored_model(e) == #[trigger] corrected(
                    c,
                    patch@,
                ),
    {
        invalid(validate_patch(&patch))?;
        let found = self.get_locked(id)?;
        let ghost found_model = found;
        let created_at: i64 = match &found {
            Some(c) => c.created_at,
            None => 0,
        };
        let ghost patch_model = patch@;
        let next = match correction(found, patch) {
            Ok(next) => next,
            Err(e) => {
                proof {
                    if let Some(c) = found_model {
                        assert(new_expense_error(merged_model(c, patch_model)) is Some);
                    }
                }
                return Err(e);
            },
        };
        let now = crate::models::now_ms();
        let values = update_values(&next, now, id);
        db(execute(&self.conn, UPDATE_SQL, to_sqlite_values(&values)))?;
        let written = self.get_locked(id)?;
        let r = read_back(written_row(written, &next, created_at, now), StoreError::UpdatedMissing);
        proof {
            if r is Ok {
                let c = found_model.unwrap();
                assert(stored_model(r->Ok_0) == corrected(c, patch_model));
            }
        }
        r
    }

    /// Deletes the expense with this id; deleting an id that names no expense fails
    /// with `NotFound`.
    pub fn delete(&self, id: &str) -> (r: Result<(), StoreError>)
        ensures
            r matches Err(e) ==> e is NotFound || e is Database,
    {
        let values = delete_values(id);
        let changed = db(execute(&self.conn, DELETE_SQL, to_sqlite_values(&values)))?;
        deletion_outcome(changed)
    }

    /// Summarizes the expenses that the filters admit, up to `MAX_LIMIT` of them, by
    /// currency and category. Filters that break a rule are refused with that rule's
    /// error; a total that does not fit in `i64` gives `TotalOutOfRange`.
    pub fn summary(&self, filters: ExpenseFilters) -> (r: Result<ExpenseSummary, StoreError>)
        ensures
            rule_failure(listing_error(filters@)) matches Some(e) ==> r == Err::<
                ExpenseSummary,
                StoreError,
            >(e),
            listing_error(filters@) is None ==> !(r matches Err(StoreError::Invalid(_))),
            r matches Ok(out) ==> exists|rows: Seq<Expense>|
                rows.len() <= MAX_LIMIT && (forall|i: int|
                    0 <= i < rows.len() ==> admits(filters@, #[trigger] rows[i]))
                    && is_summary_of(rows, out),
            r matches Err(StoreError::TotalOutOfRange) ==> exists|rows: Seq<Expense>|
                rows.len() <= MAX_LIMIT && (forall|i: int|
                    0 <= i < rows.len() ==> admits(filters@, #[trigger] rows[i])) && !totals_fit(
                    rows,
                ),
            r matches Err(e) ==> e is Invalid || e is Database || e is TotalOutOfRange,
    {
        let ghost asked = filters@;
        let listing = summary_filters(filters);
        let ghost listed = listing@;
        let expenses = self.list(listing)?;
        proof {
            assert forall|i: int| 0 <= i < expenses@.len() implies admits(
                asked,
                #[trigger] expenses@[i],
            ) by {
                assert(admits(listed, expenses@[i]));
            }
        }
        summary_outcome(&expenses)
    }

    /// The number of stored expenses.
    pub fn counts(&self) -> (r: Result<usize, StoreError>)
        ensures
            r matches Ok(n) ==> n <= i64::MAX,
            r matches Err(e) ==> e is Database || e is CountOutOfRange,
    {
        let count = db(query_integer(&self.conn, COUNT_SQL))?;
        count_to_usize(count)
    }
}

/// The first rule that a listing's filters break.
pub open spec fn listing_error(f: FiltersModel) -> Option<ValidationError> {
    filters_error(f.from, f.to, f.category, f.currency)
}

/// `uuid::Uuid::new_v4().to_string()`: a random id. Nothing is claimed of it.
#[verifier::external_body]
fn new_expense_id() -> String {
    uuid::Uuid::new_v4().to_string()
}


/// The fields of a stored expense that a correction can change.
pub open spec fn stored_model(e: Expense) -> NewExpenseModel {
    NewExpenseModel {
        spent_on: e.spent_on@,
        merchant: e.merchant@,
        amount_minor: e.amount_minor,
        currency: e.currency@,
        category: e.category@,
        account: opt_chars(e.account),
        note: opt_chars(e.note),
    }
}

/// What a correction writes: the stored expense with the correction laid over it,
/// normalized.
pub open spec fn corrected(current: Expense, patch: crate::models::PatchModel) -> NewExpenseModel {
    crate::validation::normalized_model(merged_model(current, patch))
}

/// A correction changes only what it names: of an expense stored in normalized form,
/// each field that the correction omits is written back as it was stored, and each
/// field that it names is written as that value normalized.
pub proof fn correction_keeps_omitted_fields(current: Expense, patch: crate::models::PatchModel)
    requires
        crate::validation::normalized_model(stored_model(current)) == stored_model(current),
    ensures
        patch.spent_on is None ==> corrected(current, patch).spent_on == current.spent_on@,
        patch.merchant is None ==> corrected(current, patch).merchant == current.merchant@,
        patch.amount_minor is None ==> corrected(current, patch).amount_minor
            == current.amount_minor,
        patch.currency is None ==> corrected(current, patch).currency == current.currency@,
        patch.category is None ==> corrected(current, patch).category == current.category@,
        patch.account is None ==> corrected(current, patch).account == opt_chars(current.account),
        patch.note is None ==> corrected(current, patch).note == opt_chars(current.note),
        patch.spent_on matches Some(v) ==> corrected(current, patch).spent_on == trim_seq(v),
        patch.merchant matches Some(v) ==> corrected(current, patch).merchant == trim_seq(v),
        patch.amount_minor matches Some(a) ==> corrected(current, patch).amount_minor == a,
        patch.currency matches Some(v) ==> corrected(current, patch).currency
            == normalized_currency(v),
        patch.category matches Some(v) ==> corrected(current, patch).category == trim_seq(v),
        patch.account matches Some(v) ==> corrected(current, patch).account
            == crate::validation::normalized_optional(Some(v)),
        patch.note matches Some(v) ==> corrected(current, patch).note
            == crate::validation::normalized_optional(Some(v)),
{
}

/// What an insert stores and gives back is the input as normalized: the date,
/// merchant and category trimmed, the amount as given, the currency code trimmed and
/// upper-cased, and the account and note trimmed, each dropped only where nothing is
/// left of it; a note with text in it is kept.
pub proof fn inserted_expense_is_the_normalized_input(input: NewExpenseModel, e: Expense)
    requires
        stored_model(e) == crate::validation::normalized_model(input),
    ensures
        e.spent_on@ == trim_seq(input.spent_on),
        e.merchant@ == trim_seq(input.merchant),
        e.amount_minor == input.amount_minor,
        e.currency@ == normalized_currency(input.currency),
        e.category@ == trim_seq(input.category),
        input.account matches Some(a) ==> (trim_seq(a).len() > 0 ==> opt_chars(e.account) == Some(
            trim_seq(a),
        )),
        input.note matches Some(n) ==> (trim_seq(n).len() > 0 ==> opt_chars(e.note) == Some(
            trim_seq(n),
        )),
        input.account is None ==> e.account is None,
        input.note is None ==> e.note is None,
{
}

/// Every expense that a listing admits meets each filter given: its date is on or
/// after `from` and on or before `to` (in the byte order of the texts), its category
/// is the trimmed category, and, where the currency filter is a currency code, its
/// currency is that code normalized.
pub proof fn listed_expenses_meet_each_filter(f: FiltersModel, e: Expense)
    requires
        admits(f, e),
    ensures
        f.from matches Some(d) ==> d == e.spent_on@ || str_lt(d, e.spent_on@),
        f.to matches Some(d) ==> e.spent_on@ == d || str_lt(e.spent_on@, d),
        f.category matches Some(c) ==> e.category@ == trim_seq(c),
        f.currency matches Some(c) ==> (is_currency_code(normalized_currency(c))
            ==> e.currency@ == normalized_currency(c)),
{
    if let Some(d) = f.from {
        crate::text::lemma_str_lt_order(d, e.spent_on@, d);
    }
    if let Some(d) = f.to {
        crate::text::lemma_str_lt_order(d, e.spent_on@, d);
    }
}

/// A listing with a currency filter holds expenses of one currency only.
pub proof fn currency_filter_admits_one_currency(f: FiltersModel, rows: Seq<Expense>)
    requires
        f.currency is Some,
        forall|i: int| 0 <= i < rows.len() ==> admits(f, #[trigger] rows[i]),
    ensures
        forall|i: int, j: int|
            0 <= i < rows.len() && 0 <= j < rows.len() ==> #[trigger] rows[i].currency@
                == #[trigger] rows[j].currency@,
{
    assert forall|i: int, j: int|
        0 <= i < rows.len() && 0 <= j < rows.len() implies #[trigger] rows[i].currency@
        == #[trigger] rows[j].currency@ by {
        assert(admits(f, rows[i]));
        assert(admits(f, rows[j]));
    }
}

/// A correction writes each field it names, normalized; of an expense stored in
/// normalized form it writes back each field it omits unchanged.
pub proof fn correction_writes_the_named_fields(
    current: Expense,
    patch: crate::models::PatchModel,
    e: Expense,
)
    requires
        stored_model(e) == corrected(current, patch),
    ensures
        patch.amount_minor matches Some(a) ==> e.amount_minor == a,
        patch.spent_on matches Some(v) ==> e.spent_on@ == trim_seq(v),
        patch.merchant matches Some(v) ==> e.merchant@ == trim_seq(v),
        patch.currency matches Some(v) ==> e.currency@ == normalized_currency(v),
        patch.category matches Some(v) ==> e.category@ == trim_seq(v),
        crate::validation::normalized_model(stored_model(current)) == stored_model(current) ==> {
            &&& patch.amount_minor is None ==> e.amount_minor == current.amount_minor
            &&& patch.spent_on is None ==> e.spent_on@ == current.spent_on@
            &&& patch.merchant is None ==> e.merchant@ == current.merchant@
            &&& patch.currency is None ==> e.currency@ == current.currency@
            &&& patch.category is None ==> e.category@ == current.category@
            &&& patch.account is None ==> opt_chars(e.account) == opt_chars(current.account)
            &&& patch.note is None ==> opt_chars(e.note) == opt_chars(current.note)
        },
{
    if crate::validation::normalized_model(stored_model(current)) == stored_model(current) {
        correction_keeps_omitted_fields(current, patch);
    }
}

/// A summary of the expenses that a listing with a currency filter admits has at
/// most one currency, the one that the filter names, and counts each of those
/// expenses.
pub proof fn currency_filtered_summary_has_that_currency(
    f: FiltersModel,
    rows: Seq<Expense>,
    out: ExpenseSummary,
)
    requires
        f.currency is Some,
        forall|i: int| 0 <= i < rows.len() ==> admits(f, #[trigger] rows[i]),
        is_summary_of(rows, out),
    ensures
        out.record_count == rows.len(),
        out.by_currency@.len() <= 1,
        forall|j: int|
            0 <= j < out.by_currency@.len() ==> (#[trigger] out.by_currency@[j]).currency@
                == currency_filter_value(f.currency.unwrap()),
{
    let bc = out.by_currency@;
    let c = currency_filter_value(f.currency.unwrap());
    assert forall|j: int| 0 <= j < bc.len() implies (#[trigger] bc[j]).currency@ == c by {
        assert(crate::summary::is_currency_summary(rows, bc[j]));
        let i = choose|i: int| 0 <= i < rows.len() && #[trigger] rows[i].currency@ == bc[j].currency@;
        assert(admits(f, rows[i]));
    }
    if bc.len() > 1 {
        assert(str_lt(bc[0].currency@, bc[1].currency@));
        crate::text::lemma_str_lt_order(c, c, c);
        assert(false);
    }
}

/// In a listing in listing order no expense is dated before one that follows it, and
/// of two on one date the one created later comes first.
pub proof fn listings_are_newest_first(s: Seq<Expense>, i: int, j: int)
    requires
        newest_first(s),
        0 <= i < j < s.len(),
    ensures
        !str_lt(s[i].spent_on@, s[j].spent_on@),
        s[i].spent_on@ == s[j].spent_on@ ==> s[i].created_at >= s[j].created_at,
{
    assert(listed_before(s[i], s[j]));
    crate::text::lemma_str_lt_order(s[i].spent_on@, s[j].spent_on@, s[i].spent_on@);
}

} // verus!
