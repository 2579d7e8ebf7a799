use vstd::prelude::*;

use crate::models::Expense;

verus! {

#[verifier::external_type_specification]
#[verifier::external_body]
pub struct ExSqliteConnection(rusqlite::Connection);

#[verifier::external_type_specification]
#[verifier::external_body]
pub struct ExSqliteError(rusqlite::Error);

#[verifier::external_type_specification]
#[verifier::external_body]
pub struct ExSqliteStatement<'conn>(rusqlite::Statement<'conn>);

/// A value bound to a `?` placeholder of a statement.
#[derive(Debug, Clone, PartialEq, Eq)]
pub enum SqlValue {
    Null,
    Integer(i64),
    Text(String),
}

/// A bound value seen as a plain value.
pub enum SqlParam {
    Null,
    Integer(i64),
    Text(Seq<char>),
}

impl View for SqlValue {
    type V = SqlParam;

    open spec fn view(&self) -> SqlParam {
        match self {
            SqlValue::Null => SqlParam::Null,
            SqlValue::Integer(n) => SqlParam::Integer(*n),
            SqlValue::Text(t) => SqlParam::Text(t@),
        }
    }
}

/// The bound values of a statement, as plain values.
pub open spec fn params_of(values: Seq<SqlValue>) -> Seq<SqlParam> {
    values.map_values(|v: SqlValue| v@)
}

/// `rusqlite::Connection::open_in_memory`: a connection to a new private in-memory
/// database, or the error SQLite reported. Nothing is claimed of either.
#[verifier::external_body]
pub(crate) fn open_in_memory() -> Result<rusqlite::Connection, rusqlite::Error> {
    rusqlite::Connection::open_in_memory()
}

/// `rusqlite::Connection::execute_batch`: runs each statement of `sql` in turn. What
/// the statements do to the database is SQLite's and is not claimed here.
#[verifier::external_body]
pub(crate) fn execute_batch(conn: &rusqlite::Connection, sql: &str) -> Result<(), rusqlite::Error> {
    conn.execute_batch(sql)
}

#[verifier::external_type_specification]
#[verifier::external_body]
pub struct ExSqliteValue(rusqlite::types::Value);

/// Converts bound values to rusqlite's values, one for one: `Null`, `Integer` and
/// `Text` to the variants of the same names. Nothing is claimed of the result, whose
/// type is opaque here.
#[verifier::external_body]
pub(crate) fn to_sqlite_values(values: &Vec<SqlValue>) -> Vec<rusqlite::types::Value> {
    values.iter().map(|v| match v {
        SqlValue::Null => rusqlite::types::Value::Null,
        SqlValue::Integer(n) => rusqlite::types::Value::Integer(*n),
        SqlValue::Text(t) => rusqlite::types::Value::Text(t.clone()),
    }).collect()
}

/// `rusqlite::Connection::execute`: runs one statement with `values` bound to its
/// placeholders, in order, and gives the number of rows it changed. The count and the
/// effect depend on what the database holds and are not claimed here.
#[verifier::external_body]
pub(crate) fn execute(
    conn: &rusqlite::Connection,
    sql: &str,
    values: Vec<rusqlite::types::Value>,
) -> Result<usize, rusqlite::Error> {
    conn.execute(sql, rusqlite::params_from_iter(values))
}

/// `rusqlite::Connection::prepare`: compiles one statement. Nothing is claimed of it.
#[verifier::external_body]
pub(crate) fn prepare<'conn>(conn: &'conn rusqlite::Connection, sql: &str) -> Result<
    rusqlite::Statement<'conn>,
    rusqlite::Error,
> {
    conn.prepare(sql)
}

/// `rusqlite::Statement::query_map`, collected: runs a query with `values` bound and
/// reads each row's ten columns, in order, into an expense. Which rows come back is
/// the database's and is not claimed here.
#[verifier::external_body]
pub(crate) fn query_expenses(
    stmt: &mut rusqlite::Statement,
    values: Vec<rusqlite::types::Value>,
) -> Result<Vec<Expense>, rusqlite::Error> {
    stmt.query_map(rusqlite::params_from_iter(values), |row| Ok(Expense {
        id: row.get(0)?, spent_on: row.get(1)?, merchant: row.get(2)?,
        amount_minor: row.get(3)?, currency: row.get(4)?, category: row.get(5)?,
        account: row.get(6)?, note: row.get(7)?,
        created_at: row.get(8)?, updated_at: row.get(9)?,
    }))?.collect()
}

/// `rusqlite::Connection::query_row` reading one integer column: the first column of
/// the first row of a query without placeholders. The value is the database's.
#[verifier::external_body]
pub(crate) fn query_integer(conn: &rusqlite::Connection, sql: &str) -> Result<i64, rusqlite::Error> {
    conn.query_row(sql, [], |row| row.get(0))
}

/// `rusqlite::Error`'s `Display`: the text of an error. Nothing is claimed of it.
#[verifier::external_body]
pub(crate) fn error_text(e: &rusqlite::Error) -> String {
    e.to_string()
}

} // verus!
