# ryu_expenses

A local-first expense ledger: expenses in integer minor units, exact calendar dates,
three-letter currency codes, and summaries that never add unlike currencies. The
ledger lives in one SQLite database and is served over HTTP and as MCP tools.

## Layout

- `src/` — the library, verified with Verus:
  - `text.rs`: trimming by the Unicode `White_Space` property, byte order of strings,
    string equality.
  - `validation.rs`: the rules of new expenses, corrections and listing filters, and
    the normalized form in which expenses are stored.
  - `summary.rs`: totals per currency and per category, ordered, with the proofs that
    a currency's total is the sum of its categories and that unlike currencies are
    never added.
  - `store.rs`: the ledger on SQLite: the statements, their bound values, how a
    correction is laid over a stored expense, and the outcome of each request.
  - `db.rs`: the calls into `rusqlite`.
  - `mcp.rs`, `state.rs`: the tool table, request routing decisions, bearer headers
    and configuration.
- `app/` — the program: HTTP routes (axum), the MCP loop over standard input and
  output, JSON forms of the records, and the async lock around the ledger.
- `tests/` — tests of the library.
