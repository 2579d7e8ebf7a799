use vstd::prelude::*;

verus! {

/// The routes that the HTTP surface serves under its mount point: the collection of
/// expenses, one expense by id, and the summary.
pub const SERVED_ROUTES: [&'static str; 3] = ["/expenses", "/expenses/:id", "/summary"];

} // verus!
