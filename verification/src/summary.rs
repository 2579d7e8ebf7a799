use vstd::prelude::*;

use crate::models::{CategoryTotal, CurrencySummary, Expense, ExpenseSummary};
use crate::text::{lemma_str_lt_order, str_equal, str_less, str_lt};

verus! {

/// The sum of the amounts of the first `n` expenses that are in currency `c`.
pub open spec fn currency_sum(s: Seq<Expense>, n: int, c: Seq<char>) -> int
    decreases n,
{
    if n <= 0 {
        0
    } else {
        currency_sum(s, n - 1, c) + if s[n - 1].currency@ == c {
            s[n - 1].amount_minor as int
        } else {
            0
        }
    }
}

/// The sum of the amounts of the first `n` expenses that are in currency `c` and
/// category `cat`.
pub open spec fn category_sum(s: Seq<Expense>, n: int, c: Seq<char>, cat: Seq<char>) -> int
    decreases n,
{
    if n <= 0 {
        0
    } else {
        category_sum(s, n - 1, c, cat) + if s[n - 1].currency@ == c && s[n - 1].category@ == cat {
            s[n - 1].amount_minor as int
        } else {
            0
        }
    }
}

/// One of the first `n` expenses is in currency `c`.
pub open spec fn currency_occurs(s: Seq<Expense>, n: int, c: Seq<char>) -> bool {
    exists|i: int| 0 <= i < n && #[trigger] s[i].currency@ == c
}

/// One of the first `n` expenses is in currency `c` and category `cat`.
pub open spec fn category_occurs(s: Seq<Expense>, n: int, c: Seq<char>, cat: Seq<char>) -> bool {
    exists|i: int| 0 <= i < n && #[trigger] s[i].currency@ == c && s[i].category@ == cat
}

/// The total of all expenses in currency `c`.
pub open spec fn currency_total(s: Seq<Expense>, c: Seq<char>) -> int {
    currency_sum(s, s.len() as int, c)
}

/// The total of all expenses in currency `c` and category `cat`.
pub open spec fn category_total(s: Seq<Expense>, c: Seq<char>, cat: Seq<char>) -> int {
    category_sum(s, s.len() as int, c, cat)
}

pub open spec fn has_currency(s: Seq<Expense>, c: Seq<char>) -> bool {
    currency_occurs(s, s.len() as int, c)
}

pub open spec fn has_category(s: Seq<Expense>, c: Seq<char>, cat: Seq<char>) -> bool {
    category_occurs(s, s.len() as int, c, cat)
}

pub open spec fn fits_i64(x: int) -> bool {
    i64::MIN <= x <= i64::MAX
}

/// Every total that a summary of `s` reports fits in `i64`.
pub open spec fn totals_fit(s: Seq<Expense>) -> bool {
    &&& forall|c: Seq<char>| has_currency(s, c) ==> fits_i64(#[trigger] currency_total(s, c))
    &&& forall|c: Seq<char>, cat: Seq<char>|
        has_category(s, c, cat) ==> fits_i64(#[trigger] category_total(s, c, cat))
}

proof fn lemma_sum_bounds(s: Seq<Expense>, n: int, c: Seq<char>, cat: Seq<char>)
    requires
        0 <= n <= s.len(),
    ensures
        -n * 0x8000_0000_0000_0000 <= currency_sum(s, n, c) <= n * 0x7fff_ffff_ffff_ffff,
        -n * 0x8000_0000_0000_0000 <= category_sum(s, n, c, cat) <= n * 0x7fff_ffff_ffff_ffff,
    decreases n,
{
    if n > 0 {
        lemma_sum_bounds(s, n - 1, c, cat);
    }
}

proof fn lemma_currency_sum_absent(s: Seq<Expense>, n: int, c: Seq<char>)
    requires
        0 <= n <= s.len(),
        !currency_occurs(s, n, c),
    ensures
        currency_sum(s, n, c) == 0,
    decreases n,
{
    if n > 0 {
        assert(s[n - 1].currency@ != c);
        assert(!currency_occurs(s, n - 1, c)) by {
            if currency_occurs(s, n - 1, c) {
                let i = choose|i: int| 0 <= i < n - 1 && #[trigger] s[i].currency@ == c;
                assert(0 <= i < n && s[i].currency@ == c);
            }
        }
        lemma_currency_sum_absent(s, n - 1, c);
    }
}

proof fn lemma_category_sum_absent(s: Seq<Expense>, n: int, c: Seq<char>, cat: Seq<char>)
    requires
        0 <= n <= s.len(),
        !category_occurs(s, n, c, cat),
    ensures
        category_sum(s, n, c, cat) == 0,
    decreases n,
{
    if n > 0 {
        assert(!(s[n - 1].currency@ == c && s[n - 1].category@ == cat));
        assert(!category_occurs(s, n - 1, c, cat)) by {
            if category_occurs(s, n - 1, c, cat) {
                let i = choose|i: int|
                    0 <= i < n - 1 && #[trigger] s[i].currency@ == c && s[i].category@ == cat;
                assert(0 <= i < n && s[i].currency@ == c && s[i].category@ == cat);
            }
        }
        lemma_category_sum_absent(s, n - 1, c, cat);
    }
}

proof fn lemma_sum_fits_i128(s: Seq<Expense>, n: int, c: Seq<char>, cat: Seq<char>)
    requires
        0 <= n <= s.len(),
        n <= usize::MAX,
    ensures
        i128::MIN <= currency_sum(s, n, c) <= i128::MAX,
        i128::MIN <= category_sum(s, n, c, cat) <= i128::MAX,
{
    lemma_sum_bounds(s, n, c, cat);
    assert(n * 0x8000_0000_0000_0000 <= 0xffff_ffff_ffff_ffff * 0x8000_0000_0000_0000)
        by (nonlinear_arith)
        requires
            0 <= n <= 0xffff_ffff_ffff_ffff,
    ;
    assert(n * 0x7fff_ffff_ffff_ffff <= 0xffff_ffff_ffff_ffff * 0x7fff_ffff_ffff_ffff)
        by (nonlinear_arith)
        requires
            0 <= n <= 0xffff_ffff_ffff_ffff,
    ;
}

/// The currencies of the first `n` expenses, each once, in ascending order, with
/// their totals.
spec fn currencies_wf(s: Seq<Expense>, n: int, cur: Seq<String>, tot: Seq<i128>) -> bool {
    &&& cur.len() == tot.len()
    &&& forall|i: int, j: int|
        0 <= i < j < cur.len() ==> str_lt(#[trigger] cur[i]@, #[trigger] cur[j]@)
    &&& forall|i: int|
        0 <= i < cur.len() ==> currency_occurs(s, n, #[trigger] cur[i]@) && tot[i]
            == currency_sum(s, n, cur[i]@)
    &&& forall|i: int|
        #![trigger s[i]]
        0 <= i < n ==> exists|j: int| 0 <= j < cur.len() && #[trigger] cur[j]@ == s[i].currency@
}

/// Adds expense `k` to the running totals of the currencies.
fn tally_currency(expenses: &Vec<Expense>, k: usize, cur: &mut Vec<String>, tot: &mut Vec<i128>)
    requires
        k < expenses@.len(),
        currencies_wf(expenses@, k as int, old(cur)@, old(tot)@),
    ensures
        currencies_wf(expenses@, k + 1, final(cur)@, final(tot)@),
{
    let ghost s = expenses@;
    let e = &expenses[k];
    let ghost c = e.currency@;
    let len = expenses.len();  // brings in that the length fits in `usize`
    proof {
        lemma_sum_fits_i128(s, k + 1, c, c);
    }
    let mut p: usize = 0;
    while p < cur.len() && str_less(cur[p].as_str(), e.currency.as_str())
        invariant
            p <= cur@.len(),
            e.currency@ == c,
            forall|i: int| 0 <= i < p ==> str_lt(#[trigger] cur@[i]@, c),
        decreases cur@.len() - p,
    {
        p = p + 1;
    }
    if p < cur.len() && str_equal(cur[p].as_str(), e.currency.as_str()) {
        let ghost old_cur = cur@;
        let ghost old_tot = tot@;
        let t = tot[p] + e.amount_minor as i128;
        tot.set(p, t);
        proof {
            assert forall|i: int| 0 <= i < cur@.len() implies currency_occurs(
                s,
                k + 1,
                #[trigger] cur@[i]@,
            ) && tot@[i] == currency_sum(s, k + 1, cur@[i]@) by {
                assert(currency_occurs(s, k as int, cur@[i]@));
                let w = choose|w: int| 0 <= w < k && #[trigger] s[w].currency@ == cur@[i]@;
                assert(0 <= w < k + 1 && s[w].currency@ == cur@[i]@);
                if i != p {
                    lemma_str_lt_order(cur@[i]@, cur@[p as int]@, cur@[i]@);
                    assert(cur@[i]@ != c);
                }
            }
            assert forall|i: int| #![trigger s[i]] 0 <= i < k + 1 implies exists|j: int|
                0 <= j < cur@.len() && #[trigger] cur@[j]@ == s[i].currency@ by {
                if i == k {
                    assert(cur@[p as int]@ == s[i].currency@);
                } else {
                    let j = choose|j: int| 0 <= j < old_cur.len() && #[trigger] old_cur[j]@ == s[i].currency@;
                    assert(cur@[j]@ == s[i].currency@);
                }
            }
        }
    } else {
        let ghost old_cur = cur@;
        let ghost old_tot = tot@;
        proof {
            assert forall|j: int| 0 <= j < old_cur.len() implies #[trigger] old_cur[j]@ != c by {
                if j < p {
                    lemma_str_lt_order(old_cur[j]@, c, c);
                } else {
                    lemma_str_lt_order(old_cur[p as int]@, c, old_cur[j]@);
                    lemma_str_lt_order(c, old_cur[p as int]@, old_cur[j]@);
                }
            }
            assert(!currency_occurs(s, k as int, c)) by {
                if currency_occurs(s, k as int, c) {
                    let w = choose|w: int| 0 <= w < k && #[trigger] s[w].currency@ == c;
                    let j = choose|j: int| 0 <= j < old_cur.len() && #[trigger] old_cur[j]@ == s[w].currency@;
                    assert(old_cur[j]@ == c);
                }
            }
            lemma_currency_sum_absent(s, k as int, c);
        }
        cur.insert(p, e.currency.clone());
        tot.insert(p, e.amount_minor as i128);
        proof {
            assert forall|i: int, j: int|
                0 <= i < j < cur@.len() implies str_lt(#[trigger] cur@[i]@, #[trigger] cur@[j]@) by {
                if i < p && j == p {
                } else if i < p && j > p {
                    assert(cur@[j] == old_cur[j - 1]);
                    lemma_str_lt_order(old_cur[i]@, c, c);
                    if p < old_cur.len() {
                        lemma_str_lt_order(old_cur[p as int]@, c, old_cur[p as int]@);
                        lemma_str_lt_order(c, old_cur[p as int]@, old_cur[j - 1]@);
                        lemma_str_lt_order(old_cur[i]@, old_cur[p as int]@, old_cur[j - 1]@);
                    }
                    assert(str_lt(old_cur[i]@, old_cur[j - 1]@));
                } else if i == p {
                    assert(cur@[j] == old_cur[j - 1]);
                    lemma_str_lt_order(old_cur[p as int]@, c, c);
                    lemma_str_lt_order(c, old_cur[p as int]@, old_cur[j - 1]@);
                } else if i > p {
                    assert(cur@[i] == old_cur[i - 1]);
                    assert(cur@[j] == old_cur[j - 1]);
                } else {
                    assert(cur@[i] == old_cur[i]);
                    assert(cur@[j] == old_cur[j]);
                }
            }
            assert forall|i: int| 0 <= i < cur@.len() implies currency_occurs(
                s,
                k + 1,
                #[trigger] cur@[i]@,
            ) && tot@[i] == currency_sum(s, k + 1, cur@[i]@) by {
                if i == p {
                    assert(s[k as int].currency@ == c);
                } else {
                    let o = if i < p { i } else { i - 1 };
                    assert(cur@[i] == old_cur[o]);
                    assert(tot@[i] == old_tot[o]);
                    assert(currency_occurs(s, k as int, old_cur[o]@));
                    let w = choose|w: int| 0 <= w < k && #[trigger] s[w].currency@ == old_cur[o]@;
                    assert(0 <= w < k + 1 && s[w].currency@ == cur@[i]@);
                    assert(old_cur[o]@ != c);
                }
            }
            assert forall|i: int| #![trigger s[i]] 0 <= i < k + 1 implies exists|j: int|
                0 <= j < cur@.len() && #[trigger] cur@[j]@ == s[i].currency@ by {
                if i == k {
                    assert(cur@[p as int]@ == s[i].currency@);
                } else {
                    let j = choose|j: int| 0 <= j < old_cur.len() && #[trigger] old_cur[j]@ == s[i].currency@;
                    let o = if j < p { j } else { j + 1 };
                    assert(cur@[o]@ == s[i].currency@);
                }
            }
        }
    }
}


/// The (currency, category) pairs of the first `n` expenses, each once, with their
/// totals.
spec fn pairs_wf(
    s: Seq<Expense>,
    n: int,
    pc: Seq<String>,
    pk: Seq<String>,
    pt: Seq<i128>,
) -> bool {
    &&& pc.len() == pk.len() == pt.len()
    &&& forall|a: int, b: int|
        0 <= a < b < pc.len() ==> !(#[trigger] pc[a]@ == #[trigger] pc[b]@ && pk[a]@ == pk[b]@)
    &&& forall|a: int|
        0 <= a < pc.len() ==> category_occurs(s, n, #[trigger] pc[a]@, pk[a]@) && pt[a]
            == category_sum(s, n, pc[a]@, pk[a]@)
    &&& forall|i: int|
        #![trigger s[i]]
        0 <= i < n ==> exists|a: int|
            0 <= a < pc.len() && #[trigger] pc[a]@ == s[i].currency@ && pk[a]@ == s[i].category@
}

/// Adds expense `k` to the running totals of the (currency, category) pairs.
fn tally_pair(
    expenses: &Vec<Expense>,
    k: usize,
    pc: &mut Vec<String>,
    pk: &mut Vec<String>,
    pt: &mut Vec<i128>,
)
    requires
        k < expenses@.len(),
        pairs_wf(expenses@, k as int, old(pc)@, old(pk)@, old(pt)@),
    ensures
        pairs_wf(expenses@, k + 1, final(pc)@, final(pk)@, final(pt)@),
{
    let ghost s = expenses@;
    let e = &expenses[k];
    let ghost c = e.currency@;
    let ghost cat = e.category@;
    let len = expenses.len();  // brings in that the length fits in `usize`
    proof {
        lemma_sum_fits_i128(s, k + 1, c, cat);
    }
    let mut a: usize = 0;
    while a < pc.len() && !(str_equal(pc[a].as_str(), e.currency.as_str()) && str_equal(
        pk[a].as_str(),
        e.category.as_str(),
    ))
        invariant
            a <= pc@.len(),
            pc@.len() == pk@.len(),
            e.currency@ == c,
            e.category@ == cat,
            forall|b: int| 0 <= b < a ==> !(#[trigger] pc@[b]@ == c && pk@[b]@ == cat),
        decreases pc@.len() - a,
    {
        a = a + 1;
    }
    let ghost old_pc = pc@;
    let ghost old_pk = pk@;
    let ghost old_pt = pt@;
    if a < pc.len() {
        let t = pt[a] + e.amount_minor as i128;
        pt.set(a, t);
        proof {
            assert forall|b: int| 0 <= b < pc@.len() implies category_occurs(
                s,
                k + 1,
                #[trigger] pc@[b]@,
                pk@[b]@,
            ) && pt@[b] == category_sum(s, k + 1, pc@[b]@, pk@[b]@) by {
                assert(category_occurs(s, k as int, pc@[b]@, pk@[b]@));
                let w = choose|w: int|
                    0 <= w < k && #[trigger] s[w].currency@ == pc@[b]@ && s[w].category@ == pk@[b]@;
                assert(0 <= w < k + 1 && s[w].currency@ == pc@[b]@ && s[w].category@ == pk@[b]@);
                if b != a {
                    if b < a {
                        assert(!(pc@[b]@ == pc@[a as int]@ && pk@[b]@ == pk@[a as int]@));
                    } else {
                        assert(!(pc@[a as int]@ == pc@[b]@ && pk@[a as int]@ == pk@[b]@));
                    }
                }
            }
            assert forall|i: int| #![trigger s[i]] 0 <= i < k + 1 implies exists|b: int|
                0 <= b < pc@.len() && #[trigger] pc@[b]@ == s[i].currency@ && pk@[b]@
                    == s[i].category@ by {
                if i == k {
                    assert(pc@[a as int]@ == s[i].currency@ && pk@[a as int]@ == s[i].category@);
                } else {
                    let b = choose|b: int|
                        0 <= b < old_pc.len() && #[trigger] old_pc[b]@ == s[i].currency@ && old_pk[b]@
                            == s[i].category@;
                    assert(pc@[b]@ == s[i].currency@);
                }
            }
        }
    } else {
        proof {
            assert(!category_occurs(s, k as int, c, cat)) by {
                if category_occurs(s, k as int, c, cat) {
                    let w = choose|w: int|
                        0 <= w < k && #[trigger] s[w].currency@ == c && s[w].category@ == cat;
                    let b = choose|b: int|
                        0 <= b < old_pc.len() && #[trigger] old_pc[b]@ == s[w].currency@ && old_pk[b]@
                            == s[w].category@;
                    assert(old_pc[b]@ == c && old_pk[b]@ == cat);
                }
            }
            lemma_category_sum_absent(s, k as int, c, cat);
        }
        pc.push(e.currency.clone());
        pk.push(e.category.clone());
        pt.push(e.amount_minor as i128);
        proof {
            assert forall|x: int, y: int|
                0 <= x < y < pc@.len() implies !(#[trigger] pc@[x]@ == #[trigger] pc@[y]@
                && pk@[x]@ == pk@[y]@) by {
                if y == old_pc.len() {
                    assert(!(old_pc[x]@ == c && old_pk[x]@ == cat));
                } else {
                    assert(pc@[x] == old_pc[x] && pc@[y] == old_pc[y]);
                    assert(pk@[x] == old_pk[x] && pk@[y] == old_pk[y]);
                }
            }
            assert forall|b: int| 0 <= b < pc@.len() implies category_occurs(
                s,
                k + 1,
                #[trigger] pc@[b]@,
                pk@[b]@,
            ) && pt@[b] == category_sum(s, k + 1, pc@[b]@, pk@[b]@) by {
                if b == old_pc.len() {
                    assert(s[k as int].currency@ == c && s[k as int].category@ == cat);
                } else {
                    assert(pc@[b] == old_pc[b] && pk@[b] == old_pk[b] && pt@[b] == old_pt[b]);
                    assert(category_occurs(s, k as int, pc@[b]@, pk@[b]@));
                    let w = choose|w: int|
                        0 <= w < k && #[trigger] s[w].currency@ == pc@[b]@ && s[w].category@ == pk@[b]@;
                    assert(0 <= w < k + 1 && s[w].currency@ == pc@[b]@ && s[w].category@ == pk@[b]@);
                    assert(!(old_pc[b]@ == c && old_pk[b]@ == cat));
                }
            }
            assert forall|i: int| #![trigger s[i]] 0 <= i < k + 1 implies exists|b: int|
                0 <= b < pc@.len() && #[trigger] pc@[b]@ == s[i].currency@ && pk@[b]@
                    == s[i].category@ by {
                if i == k {
                    assert(pc@[old_pc.len() as int]@ == s[i].currency@);
                } else {
                    let b = choose|b: int|
                        0 <= b < old_pc.len() && #[trigger] old_pc[b]@ == s[i].currency@ && old_pk[b]@
                            == s[i].category@;
                    assert(pc@[b] == old_pc[b] && pk@[b] == old_pk[b]);
                }
            }
        }
    }
}


/// Tallies every expense: the currencies in ascending order with their totals, and
/// the (currency, category) pairs with theirs.
fn tally(expenses: &Vec<Expense>) -> (r: (Vec<String>, Vec<i128>, Vec<String>, Vec<String>, Vec<i128>))
    ensures
        currencies_wf(expenses@, expenses@.len() as int, r.0@, r.1@),
        pairs_wf(expenses@, expenses@.len() as int, r.2@, r.3@, r.4@),
{
    let mut cur: Vec<String> = Vec::new();
    let mut tot: Vec<i128> = Vec::new();
    let mut pc: Vec<String> = Vec::new();
    let mut pk: Vec<String> = Vec::new();
    let mut pt: Vec<i128> = Vec::new();
    let mut k: usize = 0;
    while k < expenses.len()
        invariant
            k <= expenses@.len(),
            currencies_wf(expenses@, k as int, cur@, tot@),
            pairs_wf(expenses@, k as int, pc@, pk@, pt@),
        decreases expenses@.len() - k,
    {
        tally_currency(expenses, k, &mut cur, &mut tot);
        tally_pair(expenses, k, &mut pc, &mut pk, &mut pt);
        k = k + 1;
    }
    (cur, tot, pc, pk, pt)
}

/// The order of the categories of a summary: larger totals first, equal totals by
/// the order of their names.
pub open spec fn category_before(x: CategoryTotal, y: CategoryTotal) -> bool {
    x.total_minor > y.total_minor || (x.total_minor == y.total_minor && str_lt(
        x.category@,
        y.category@,
    ))
}

pub open spec fn categories_sorted(v: Seq<CategoryTotal>) -> bool {
    forall|i: int, j: int| 0 <= i < j < v.len() ==> category_before(#[trigger] v[i], #[trigger] v[j])
}

proof fn lemma_category_before_order(x: CategoryTotal, y: CategoryTotal, z: CategoryTotal)
    ensures
        !category_before(x, x),
        category_before(x, y) && category_before(y, z) ==> category_before(x, z),
        x.category@ != y.category@ ==> category_before(x, y) || category_before(y, x),
{
    lemma_str_lt_order(x.category@, y.category@, z.category@);
    lemma_str_lt_order(y.category@, x.category@, z.category@);
}

fn category_precedes(x: &CategoryTotal, y: &CategoryTotal) -> (r: bool)
    ensures
        r == category_before(*x, *y),
{
    x.total_minor > y.total_minor || (x.total_minor == y.total_minor && str_less(
        x.category.as_str(),
        y.category.as_str(),
    ))
}

/// Puts `item` into a sorted list of categories at the place that keeps it sorted.
fn insert_sorted(v: &mut Vec<CategoryTotal>, item: CategoryTotal) -> (q: usize)
    requires
        categories_sorted(old(v)@),
        forall|j: int| 0 <= j < old(v)@.len() ==> (#[trigger] old(v)@[j]).category@ != item.category@,
    ensures
        q <= old(v)@.len(),
        final(v)@ == old(v)@.insert(q as int, item),
        categories_sorted(final(v)@),
{
    let mut q: usize = 0;
    while q < v.len() && category_precedes(&v[q], &item)
        invariant
            q <= v@.len(),
            forall|j: int| 0 <= j < q ==> category_before(#[trigger] v@[j], item),
        decreases v@.len() - q,
    {
        q = q + 1;
    }
    let ghost old_v = v@;
    proof {
        if q < old_v.len() {
            lemma_category_before_order(old_v[q as int], item, item);
        }
    }
    v.insert(q, item);
    proof {
        assert forall|i: int, j: int| 0 <= i < j < v@.len() implies category_before(
            #[trigger] v@[i],
            #[trigger] v@[j],
        ) by {
            if j < q {
                assert(v@[i] == old_v[i] && v@[j] == old_v[j]);
            } else if j == q {
            } else if i < q {
                assert(v@[i] == old_v[i] && v@[j] == old_v[j - 1]);
                lemma_category_before_order(old_v[i], item, old_v[q as int]);
                lemma_category_before_order(item, old_v[q as int], old_v[j - 1]);
                if j - 1 > q {
                    lemma_category_before_order(old_v[i], old_v[q as int], old_v[j - 1]);
                }
            } else if i == q {
                assert(v@[j] == old_v[j - 1]);
                if j - 1 > q {
                    lemma_category_before_order(item, old_v[q as int], old_v[j - 1]);
                }
            } else {
                assert(v@[i] == old_v[i - 1] && v@[j] == old_v[j - 1]);
            }
        }
    }
    q
}

/// What the categories of currency `c` collected from the first `a` pairs hold:
/// sorted, each from one of those pairs, and every such pair among them.
spec fn collected_wf(
    c: Seq<char>,
    pc: Seq<String>,
    pk: Seq<String>,
    pt: Seq<i128>,
    a: int,
    v: Seq<CategoryTotal>,
) -> bool {
    &&& categories_sorted(v)
    &&& forall|j: int| 0 <= j < v.len() ==> from_pair(c, pc, pk, pt, a, #[trigger] v[j])
    &&& forall|b: int|
        0 <= b < a && #[trigger] currency_of_pair(pc, b) == c ==> exists|j: int|
            0 <= j < v.len() && (#[trigger] v[j]).category@ == pk[b]@
    &&& forall|b: int| 0 <= b < a && #[trigger] currency_of_pair(pc, b) == c ==> fits_i64(pt[b] as int)
}

spec fn currency_of_pair(pc: Seq<String>, b: int) -> Seq<char> {
    pc[b]@
}

/// `x` is the category and total of one of the first `a` pairs, one in currency `c`.
spec fn from_pair(
    c: Seq<char>,
    pc: Seq<String>,
    pk: Seq<String>,
    pt: Seq<i128>,
    a: int,
    x: CategoryTotal,
) -> bool {
    exists|b: int|
        0 <= b < a && #[trigger] pc[b]@ == c && pk[b]@ == x.category@ && x.total_minor == pt[b]
}

proof fn lemma_collected_skip(
    c: Seq<char>,
    pc: Seq<String>,
    pk: Seq<String>,
    pt: Seq<i128>,
    a: int,
    v: Seq<CategoryTotal>,
)
    requires
        0 <= a < pc.len(),
        collected_wf(c, pc, pk, pt, a, v),
        pc[a]@ != c,
    ensures
        collected_wf(c, pc, pk, pt, a + 1, v),
{
    assert forall|j: int| 0 <= j < v.len() implies from_pair(c, pc, pk, pt, a + 1, #[trigger] v[j]) by {
        assert(from_pair(c, pc, pk, pt, a, v[j]));
        let b = choose|b: int|
            0 <= b < a && #[trigger] pc[b]@ == c && pk[b]@ == v[j].category@ && v[j].total_minor
                == pt[b];
        assert(0 <= b < a + 1 && pc[b]@ == c);
    }
    assert forall|b: int| 0 <= b < a + 1 && #[trigger] currency_of_pair(pc, b) == c implies exists|j: int|
        0 <= j < v.len() && (#[trigger] v[j]).category@ == pk[b]@ by {
        assert(b < a);
    }
    assert forall|b: int| 0 <= b < a + 1 && #[trigger] currency_of_pair(pc, b) == c implies fits_i64(
        pt[b] as int,
    ) by {
        assert(b < a);
    }
}

/// Adds the category of pair `a`, which is in currency `c`, to the collected ones.
fn collect_pair(
    c: Ghost<Seq<char>>,
    pc: &Vec<String>,
    pk: &Vec<String>,
    pt: &Vec<i128>,
    a: usize,
    v: &mut Vec<CategoryTotal>,
)
    requires
        a < pc@.len(),
        pc@.len() == pk@.len() == pt@.len(),
        pc@[a as int]@ == c@,
        fits_i64(pt@[a as int] as int),
        forall|x: int, y: int|
            0 <= x < y < pc@.len() ==> !(#[trigger] pc@[x]@ == #[trigger] pc@[y]@ && pk@[x]@
                == pk@[y]@),
        collected_wf(c@, pc@, pk@, pt@, a as int, old(v)@),
    ensures
        collected_wf(c@, pc@, pk@, pt@, a + 1, final(v)@),
{
    let item = CategoryTotal { category: pk[a].clone(), total_minor: pt[a] as i64 };
    let ghost old_v = v@;
    proof {
        assert forall|j: int| 0 <= j < old_v.len() implies (#[trigger] old_v[j]).category@
            != item.category@ by {
            assert(from_pair(c@, pc@, pk@, pt@, a as int, old_v[j]));
            let b = choose|b: int|
                0 <= b < a && #[trigger] pc@[b]@ == c@ && pk@[b]@ == old_v[j].category@
                    && old_v[j].total_minor == pt@[b];
            assert(!(pc@[b]@ == pc@[a as int]@ && pk@[b]@ == pk@[a as int]@));
        }
    }
    let q = insert_sorted(v, item);
    proof {
        assert forall|j: int| 0 <= j < v@.len() implies from_pair(c@, pc@, pk@, pt@, a + 1, #[trigger] v@[j]) by {
            if j == q {
                assert(pc@[a as int]@ == c@ && pk@[a as int]@ == v@[j].category@);
            } else {
                let o = if j < q { j } else { j - 1 };
                assert(v@[j] == old_v[o]);
                assert(from_pair(c@, pc@, pk@, pt@, a as int, old_v[o]));
                let b = choose|b: int|
                    0 <= b < a && #[trigger] pc@[b]@ == c@ && pk@[b]@ == old_v[o].category@
                        && old_v[o].total_minor == pt@[b];
                assert(pc@[b]@ == c@);
            }
        }
        assert forall|b: int| 0 <= b < a + 1 && #[trigger] currency_of_pair(pc@, b) == c@ implies exists|j: int|
            0 <= j < v@.len() && (#[trigger] v@[j]).category@ == pk@[b]@ by {
            if b == a {
                assert(v@[q as int].category@ == pk@[b]@);
            } else {
                let j = choose|j: int| 0 <= j < old_v.len() && (#[trigger] old_v[j]).category@ == pk@[b]@;
                let o = if j < q { j } else { j + 1 };
                assert(v@[o] == old_v[j]);
            }
        }
        assert forall|b: int| 0 <= b < a + 1 && #[trigger] currency_of_pair(pc@, b) == c@ implies fits_i64(
            pt@[b] as int,
        ) by {
        }
    }
}

/// The category totals of currency `c`, in the order of a summary, or `None` where
/// one of them does not fit in `i64`.
fn categories_of(
    expenses: &Vec<Expense>,
    c: &String,
    pc: &Vec<String>,
    pk: &Vec<String>,
    pt: &Vec<i128>,
) -> (r: Option<Vec<CategoryTotal>>)
    requires
        pairs_wf(expenses@, expenses@.len() as int, pc@, pk@, pt@),
    ensures
        r is None ==> exists|a: int|
            0 <= a < pc@.len() && #[trigger] pc@[a]@ == c@ && !fits_i64(pt@[a] as int),
        r is Some ==> forall|a: int|
            0 <= a < pc@.len() && #[trigger] currency_of_pair(pc@, a) == c@ ==> fits_i64(pt@[a] as int),
        r matches Some(v) ==> is_category_list(expenses@, c@, v@),
{
    let ghost s = expenses@;
    let ghost n = s.len() as int;
    let mut v: Vec<CategoryTotal> = Vec::new();
    let mut a: usize = 0;
    while a < pc.len()
        invariant
            pairs_wf(s, n, pc@, pk@, pt@),
            a <= pc@.len(),
            collected_wf(c@, pc@, pk@, pt@, a as int, v@),
        decreases pc@.len() - a,
    {
        if str_equal(pc[a].as_str(), c.as_str()) {
            let t = pt[a];
            if t < i64::MIN as i128 || t > i64::MAX as i128 {
                return None;
            }
            collect_pair(Ghost(c@), pc, pk, pt, a, &mut v);
        } else {
            proof {
                lemma_collected_skip(c@, pc@, pk@, pt@, a as int, v@);
            }
        }
        a = a + 1;
    }
    proof {
        assert forall|j: int| 0 <= j < v@.len() implies has_category(s, c@, (#[trigger] v@[j]).category@)
            && v@[j].total_minor == category_total(s, c@, v@[j].category@) by {
            assert(from_pair(c@, pc@, pk@, pt@, a as int, v@[j]));
            let b = choose|b: int|
                0 <= b < a && #[trigger] pc@[b]@ == c@ && pk@[b]@ == v@[j].category@
                    && v@[j].total_minor == pt@[b];
            assert(category_occurs(s, n, pc@[b]@, pk@[b]@));
        }
        assert forall|i: int| 0 <= i < s.len() && (#[trigger] s[i]).currency@ == c@ implies exists|j: int|
            0 <= j < v@.len() && (#[trigger] v@[j]).category@ == s[i].category@ by {
            let b = choose|b: int|
                0 <= b < pc@.len() && #[trigger] pc@[b]@ == s[i].currency@ && pk@[b]@ == s[i].category@;
            assert(currency_of_pair(pc@, b) == c@);
        }
    }
    Some(v)
}

/// The categories of currency `c` in a summary of `s`: in the order of a summary,
/// each with its total, and every category of `c` among them.
pub open spec fn is_category_list(s: Seq<Expense>, c: Seq<char>, v: Seq<CategoryTotal>) -> bool {
    &&& categories_sorted(v)
    &&& forall|j: int|
        0 <= j < v.len() ==> has_category(s, c, (#[trigger] v[j]).category@) && v[j].total_minor
            == category_total(s, c, v[j].category@)
    &&& forall|i: int|
        0 <= i < s.len() && (#[trigger] s[i]).currency@ == c ==> exists|j: int|
            0 <= j < v.len() && (#[trigger] v[j]).category@ == s[i].category@
}


/// `g` summarizes the expenses of `s` in its currency: the currency occurs, the total
/// is the sum of its amounts, and its categories are listed with their totals.
pub open spec fn is_currency_summary(s: Seq<Expense>, g: CurrencySummary) -> bool {
    &&& has_currency(s, g.currency@)
    &&& g.total_minor == currency_total(s, g.currency@)
    &&& is_category_list(s, g.currency@, g.categories@)
}

/// `out` is the summary of `s`: one entry per currency, in ascending order of the
/// currency codes, each with the totals of that currency alone; a grand total only
/// where a single currency occurs; and the number of expenses.
pub open spec fn is_summary_of(s: Seq<Expense>, out: ExpenseSummary) -> bool {
    let bc = out.by_currency@;
    &&& out.record_count == s.len()
    &&& forall|i: int, j: int|
        0 <= i < j < bc.len() ==> str_lt((#[trigger] bc[i]).currency@, (#[trigger] bc[j]).currency@)
    &&& forall|i: int| 0 <= i < bc.len() ==> is_currency_summary(s, #[trigger] bc[i])
    &&& forall|i: int|
        #![trigger s[i]]
        0 <= i < s.len() ==> exists|j: int|
            0 <= j < bc.len() && (#[trigger] bc[j]).currency@ == s[i].currency@
    &&& out.total_minor == (if bc.len() == 1 {
        Some(bc[0].total_minor)
    } else {
        None::<i64>
    })
}

/// Summarizes expenses: per currency, the total and the totals of its categories,
/// largest first; the grand total only where all expenses share one currency, since
/// amounts in unlike currencies are never added. `None` where a total does not fit
/// in `i64`.
pub fn summarize(expenses: &Vec<Expense>) -> (r: Option<ExpenseSummary>)
    ensures
        r is Some <==> totals_fit(expenses@),
        r matches Some(out) ==> is_summary_of(expenses@, out),
{
    let ghost s = expenses@;
    let ghost n = s.len() as int;
    let (cur, tot, pc, pk, pt) = tally(expenses);
    let mut out: Vec<CurrencySummary> = Vec::new();
    let mut i: usize = 0;
    while i < cur.len()
        invariant
            s == expenses@,
            n == s.len(),
            currencies_wf(s, n, cur@, tot@),
            pairs_wf(s, n, pc@, pk@, pt@),
            i <= cur@.len(),
            out@.len() == i,
            forall|j: int|
                0 <= j < i ==> (#[trigger] out@[j]).currency@ == cur@[j]@ && is_currency_summary(
                    s,
                    out@[j],
                ),
            forall|j: int| 0 <= j < i ==> fits_i64(#[trigger] tot@[j] as int),
            forall|j: int, a: int|
                0 <= j < i && 0 <= a < pc@.len() && #[trigger] currency_of_pair(pc@, a)
                    == #[trigger] cur@[j]@ ==> fits_i64(pt@[a] as int),
        decreases cur@.len() - i,
    {
        let t = tot[i];
        if t < i64::MIN as i128 || t > i64::MAX as i128 {
            proof {
                assert(has_currency(s, cur@[i as int]@));
                assert(!fits_i64(currency_total(s, cur@[i as int]@)));
            }
            return None;
        }
        match categories_of(expenses, &cur[i], &pc, &pk, &pt) {
            None => {
                proof {
                    let a = choose|a: int|
                        0 <= a < pc@.len() && #[trigger] pc@[a]@ == cur@[i as int]@ && !fits_i64(
                            pt@[a] as int,
                        );
                    assert(category_occurs(s, n, pc@[a]@, pk@[a]@));
                    assert(!fits_i64(category_total(s, pc@[a]@, pk@[a]@)));
                }
                return None;
            },
            Some(categories) => {
                let summary = CurrencySummary {
                    currency: cur[i].clone(),
                    total_minor: t as i64,
                    categories,
                };
                out.push(summary);
                proof {
                    assert forall|j: int, a: int|
                        0 <= j < i + 1 && 0 <= a < pc@.len() && #[trigger] currency_of_pair(pc@, a)
                            == #[trigger] cur@[j]@ implies fits_i64(pt@[a] as int) by {
                        if j == i {
                            assert(currency_of_pair(pc@, a) == cur@[i as int]@);
                        }
                    }
                }
            },
        }
        i = i + 1;
    }
    let total_minor = if out.len() == 1 {
        Some(out[0].total_minor)
    } else {
        None
    };
    let result = ExpenseSummary { record_count: expenses.len(), total_minor, by_currency: out };
    proof {
        let bc = result.by_currency@;
        assert forall|x: int, y: int| 0 <= x < y < bc.len() implies str_lt(
            (#[trigger] bc[x]).currency@,
            (#[trigger] bc[y]).currency@,
        ) by {
            assert(str_lt(cur@[x]@, cur@[y]@));
        }
        assert forall|x: int| #![trigger s[x]] 0 <= x < s.len() implies exists|j: int|
            0 <= j < bc.len() && (#[trigger] bc[j]).currency@ == s[x].currency@ by {
            let j = choose|j: int| 0 <= j < cur@.len() && #[trigger] cur@[j]@ == s[x].currency@;
            assert(bc[j].currency@ == cur@[j]@);
        }
        assert forall|c: Seq<char>| has_currency(s, c) implies fits_i64(
            #[trigger] currency_total(s, c),
        ) by {
            let w = choose|w: int| 0 <= w < n && #[trigger] s[w].currency@ == c;
            let j = choose|j: int| 0 <= j < cur@.len() && #[trigger] cur@[j]@ == s[w].currency@;
            assert(fits_i64(tot@[j] as int));
        }
        assert forall|c: Seq<char>, cat: Seq<char>| has_category(s, c, cat) implies fits_i64(
            #[trigger] category_total(s, c, cat),
        ) by {
            let w = choose|w: int| 0 <= w < n && #[trigger] s[w].currency@ == c && s[w].category@ == cat;
            let a = choose|a: int|
                0 <= a < pc@.len() && #[trigger] pc@[a]@ == s[w].currency@ && pk@[a]@ == s[w].category@;
            let j = choose|j: int| 0 <= j < cur@.len() && #[trigger] cur@[j]@ == s[w].currency@;
            assert(currency_of_pair(pc@, a) == cur@[j]@);
            assert(fits_i64(pt@[a] as int));
        }
    }
    Some(result)
}


/// The sum of the amounts of the first `n` expenses, whatever their currencies.
pub open spec fn amount_sum(s: Seq<Expense>, n: int) -> int
    decreases n,
{
    if n <= 0 {
        0
    } else {
        amount_sum(s, n - 1) + s[n - 1].amount_minor as int
    }
}

proof fn lemma_one_currency_sum(s: Seq<Expense>, n: int, c: Seq<char>)
    requires
        0 <= n <= s.len(),
        forall|i: int| 0 <= i < n ==> (#[trigger] s[i]).currency@ == c,
    ensures
        currency_sum(s, n, c) == amount_sum(s, n),
    decreases n,
{
    if n > 0 {
        lemma_one_currency_sum(s, n - 1, c);
    }
}

/// A summary never adds amounts in unlike currencies: it has a grand total only
/// where every expense is in the one currency it lists, and that total is then the
/// sum of all amounts; with several currencies there is none.
pub proof fn summary_never_adds_unlike_currencies(s: Seq<Expense>, out: ExpenseSummary)
    requires
        is_summary_of(s, out),
    ensures
        out.by_currency@.len() != 1 ==> out.total_minor is None,
        out.total_minor is Some ==> forall|i: int|
            0 <= i < s.len() ==> (#[trigger] s[i]).currency@ == out.by_currency@[0].currency@,
        out.total_minor matches Some(t) ==> t == amount_sum(s, s.len() as int),
{
    let bc = out.by_currency@;
    if out.total_minor is Some {
        assert forall|i: int| 0 <= i < s.len() implies (#[trigger] s[i]).currency@
            == bc[0].currency@ by {
            let j = choose|j: int| 0 <= j < bc.len() && (#[trigger] bc[j]).currency@ == s[i].currency@;
        }
        assert(is_currency_summary(s, bc[0]));
        lemma_one_currency_sum(s, s.len() as int, bc[0].currency@);
    }
}

/// The sum of the totals of a list of categories.
pub open spec fn categories_sum(v: Seq<CategoryTotal>) -> int
    decreases v.len(),
{
    if v.len() == 0 {
        0
    } else {
        categories_sum(v.drop_last()) + v.last().total_minor as int
    }
}

/// The sum over the categories of `v` of their totals in the first `n` expenses.
spec fn sum_over_categories(s: Seq<Expense>, n: int, c: Seq<char>, v: Seq<CategoryTotal>) -> int
    decreases v.len(),
{
    if v.len() == 0 {
        0
    } else {
        sum_over_categories(s, n, c, v.drop_last()) + category_sum(s, n, c, v.last().category@)
    }
}

/// What expense `e` adds to the totals of the categories of `v` in currency `c`.
spec fn hits(e: Expense, c: Seq<char>, v: Seq<CategoryTotal>) -> int
    decreases v.len(),
{
    if v.len() == 0 {
        0
    } else {
        hits(e, c, v.drop_last()) + if e.currency@ == c && e.category@ == v.last().category@ {
            e.amount_minor as int
        } else {
            0
        }
    }
}

spec fn distinct_categories(v: Seq<CategoryTotal>) -> bool {
    forall|i: int, j: int|
        0 <= i < j < v.len() ==> (#[trigger] v[i]).category@ != (#[trigger] v[j]).category@
}

proof fn lemma_hits(e: Expense, c: Seq<char>, v: Seq<CategoryTotal>)
    requires
        distinct_categories(v),
    ensures
        (e.currency@ == c && exists|j: int| 0 <= j < v.len() && (#[trigger] v[j]).category@ == e.category@)
            ==> hits(e, c, v) == e.amount_minor,
        !(e.currency@ == c && exists|j: int| 0 <= j < v.len() && (#[trigger] v[j]).category@ == e.category@)
            ==> hits(e, c, v) == 0,
    decreases v.len(),
{
    if v.len() > 0 {
        let w = v.drop_last();
        assert(distinct_categories(w)) by {
            assert forall|i: int, j: int| 0 <= i < j < w.len() implies (#[trigger] w[i]).category@
                != (#[trigger] w[j]).category@ by {
                assert(w[i] == v[i] && w[j] == v[j]);
            }
        }
        lemma_hits(e, c, w);
        let in_v = exists|j: int| 0 <= j < v.len() && (#[trigger] v[j]).category@ == e.category@;
        let in_w = exists|j: int| 0 <= j < w.len() && (#[trigger] w[j]).category@ == e.category@;
        if in_w {
            let j = choose|j: int| 0 <= j < w.len() && (#[trigger] w[j]).category@ == e.category@;
            assert(v[j] == w[j]);
            assert(v[j].category@ != v[v.len() - 1].category@);
        }
        if in_v && !in_w {
            let j = choose|j: int| 0 <= j < v.len() && (#[trigger] v[j]).category@ == e.category@;
            if j < w.len() {
                assert(w[j] == v[j]);
            }
        }
        if v.last().category@ == e.category@ {
            assert(v[v.len() - 1].category@ == e.category@);
        }
    }
}

proof fn lemma_sum_over_categories_step(s: Seq<Expense>, n: int, c: Seq<char>, v: Seq<CategoryTotal>)
    requires
        1 <= n <= s.len(),
    ensures
        sum_over_categories(s, n, c, v) == sum_over_categories(s, n - 1, c, v) + hits(s[n - 1], c, v),
    decreases v.len(),
{
    if v.len() > 0 {
        lemma_sum_over_categories_step(s, n, c, v.drop_last());
    }
}

proof fn lemma_sum_over_categories(s: Seq<Expense>, n: int, c: Seq<char>, v: Seq<CategoryTotal>)
    requires
        0 <= n <= s.len(),
        distinct_categories(v),
        forall|i: int|
            0 <= i < s.len() && (#[trigger] s[i]).currency@ == c ==> exists|j: int|
                0 <= j < v.len() && (#[trigger] v[j]).category@ == s[i].category@,
    ensures
        sum_over_categories(s, n, c, v) == currency_sum(s, n, c),
    decreases n,
{
    if n == 0 {
        lemma_sum_over_zero(s, c, v);
    } else {
        lemma_sum_over_categories(s, n - 1, c, v);
        lemma_sum_over_categories_step(s, n, c, v);
        lemma_hits(s[n - 1], c, v);
    }
}

proof fn lemma_sum_over_zero(s: Seq<Expense>, c: Seq<char>, v: Seq<CategoryTotal>)
    ensures
        sum_over_categories(s, 0, c, v) == 0,
    decreases v.len(),
{
    if v.len() > 0 {
        lemma_sum_over_zero(s, c, v.drop_last());
    }
}

proof fn lemma_sum_over_totals(s: Seq<Expense>, c: Seq<char>, v: Seq<CategoryTotal>)
    requires
        forall|j: int|
            0 <= j < v.len() ==> (#[trigger] v[j]).total_minor == category_total(s, c, v[j].category@),
    ensures
        sum_over_categories(s, s.len() as int, c, v) == categories_sum(v),
    decreases v.len(),
{
    if v.len() > 0 {
        let w = v.drop_last();
        assert forall|j: int| 0 <= j < w.len() implies (#[trigger] w[j]).total_minor == category_total(
            s,
            c,
            w[j].category@,
        ) by {
            assert(w[j] == v[j]);
        }
        lemma_sum_over_totals(s, c, w);
        assert(v[v.len() - 1].total_minor == category_total(s, c, v[v.len() - 1].category@));
    }
}

/// The total of a currency in a summary is the sum of the totals of its categories.
pub proof fn currency_total_is_sum_of_categories(s: Seq<Expense>, out: ExpenseSummary)
    requires
        is_summary_of(s, out),
    ensures
        forall|i: int|
            0 <= i < out.by_currency@.len() ==> (#[trigger] out.by_currency@[i]).total_minor
                == categories_sum(out.by_currency@[i].categories@),
{
    assert forall|i: int| 0 <= i < out.by_currency@.len() implies (
    #[trigger] out.by_currency@[i]).total_minor == categories_sum(
        out.by_currency@[i].categories@,
    ) by {
        let g = out.by_currency@[i];
        assert(is_currency_summary(s, g));
        let c = g.currency@;
        let v = g.categories@;
        assert(distinct_categories(v)) by {
            assert forall|x: int, y: int| 0 <= x < y < v.len() implies (#[trigger] v[x]).category@
                != (#[trigger] v[y]).category@ by {
                assert(category_before(v[x], v[y]));
                if v[x].category@ == v[y].category@ {
                    lemma_str_lt_order(v[x].category@, v[x].category@, v[x].category@);
                }
            }
        }
        lemma_sum_over_categories(s, s.len() as int, c, v);
        lemma_sum_over_totals(s, c, v);
    }
}

} // verus!
