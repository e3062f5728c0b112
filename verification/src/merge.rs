//! Ranking the orders of several books by price.
//!
//! Orders are ranked by price, and among equal prices by their position in
//! the sequence they are taken from. That order is total, so every order has
//! a rank of its own: the number of orders that come before it.

use crate::book::Order;
use vstd::prelude::*;
use vstd::relations::injective_on;
use vstd::set_lib::{
    lemma_int_range, lemma_len_subset, lemma_map_size, lemma_subset_equality, set_int_range,
};

verus! {

/// The side of the book that is ranked: asks from the lowest price up, bids
/// from the highest price down.
#[derive(Clone, Copy, Debug, PartialEq, Eq, Structural)]
pub enum Side {
    Ask,
    Bid,
}

/// The number by which an order is ranked: smaller comes first.
pub open spec fn sort_key(order: Order, side: Side) -> int {
    match side {
        Side::Ask => order.price.units(),
        Side::Bid => -order.price.units(),
    }
}

/// Whether the order at `i` comes before the order at `j`: its price is
/// better, or the prices are equal and it stands earlier.
pub open spec fn comes_before(orders: Seq<Order>, i: int, j: int, side: Side) -> bool {
    sort_key(orders[i], side) < sort_key(orders[j], side) || (sort_key(orders[i], side)
        == sort_key(orders[j], side) && i < j)
}

/// The positions of the orders that come before the order at `t`.
pub open spec fn ahead_of(orders: Seq<Order>, t: int, side: Side) -> Set<int> {
    Set::new(|j: int| 0 <= j < orders.len() && comes_before(orders, j, t, side))
}

/// The number of orders that come before the order at `t`.
pub open spec fn rank(orders: Seq<Order>, t: int, side: Side) -> nat {
    ahead_of(orders, t, side).len()
}

/// The position of the order of rank `k`.
pub open spec fn at_rank(orders: Seq<Order>, k: int, side: Side) -> int {
    choose|t: int| 0 <= t < orders.len() && rank(orders, t, side) == k
}

/// The orders from the best price on, equal prices in the order in which
/// they were given.
pub open spec fn ranked(orders: Seq<Order>, side: Side) -> Seq<Order> {
    Seq::new(orders.len(), |k: int| orders[at_rank(orders, k, side)])
}

/// A sequence of `n` distinct numbers below `n` holds every number below `n`.
proof fn lemma_distinct_covers(f: Seq<int>, j: int)
    requires
        forall|k: int| 0 <= k < f.len() ==> 0 <= #[trigger] f[k] < f.len(),
        forall|k: int, l: int| 0 <= k < l < f.len() ==> #[trigger] f[k] != #[trigger] f[l],
        0 <= j < f.len(),
    ensures
        exists|k: int| 0 <= k < f.len() && f[k] == j,
{
    let n = f.len() as int;
    let dom = set_int_range(0, n);
    let g = |k: int| f[k];
    let img = dom.map(g);
    lemma_int_range(0, n);
    assert(injective_on(g, dom)) by {
        assert forall|a: int, b: int|
            dom.contains(a) && dom.contains(b) && #[trigger] g(a) == #[trigger] g(b) implies a
            == b by {
            if a < b {
                assert(f[a] != f[b]);
            } else if b < a {
                assert(f[b] != f[a]);
            }
        }
    }
    lemma_map_size(dom, img, g);
    assert(img.subset_of(dom)) by {
        assert forall|v: int| img.contains(v) implies dom.contains(v) by {
            let k = choose|k: int| dom.contains(k) && v == g(k);
            assert(0 <= f[k] < f.len());
        }
    }
    lemma_subset_equality(img, dom);
    assert(dom.contains(j));
    assert(img.contains(j));
    let k = choose|k: int| dom.contains(k) && j == g(k);
    assert(0 <= k < f.len() && f[k] == j);
}

/// Fewer orders come before an order than there are orders.
pub proof fn lemma_rank_below_len(orders: Seq<Order>, t: int, side: Side)
    requires
        0 <= t < orders.len(),
    ensures
        ahead_of(orders, t, side).finite(),
        rank(orders, t, side) < orders.len(),
{
    let n = orders.len() as int;
    let all = set_int_range(0, n);
    lemma_int_range(0, n);
    let others = all.remove(t);
    assert(ahead_of(orders, t, side).subset_of(others));
    lemma_len_subset(ahead_of(orders, t, side), others);
}

/// An order that comes before another has the smaller rank.
pub proof fn lemma_rank_follows_order(orders: Seq<Order>, a: int, b: int, side: Side)
    requires
        0 <= a < orders.len(),
        0 <= b < orders.len(),
        comes_before(orders, a, b, side),
    ensures
        rank(orders, a, side) < rank(orders, b, side),
{
    lemma_rank_below_len(orders, b, side);
    let rest = ahead_of(orders, b, side).remove(a);
    assert(ahead_of(orders, b, side).contains(a));
    assert(ahead_of(orders, a, side).subset_of(rest));
    lemma_len_subset(ahead_of(orders, a, side), rest);
}

/// Two different orders have different ranks.
pub proof fn lemma_rank_distinct(orders: Seq<Order>, a: int, b: int, side: Side)
    requires
        0 <= a < orders.len(),
        0 <= b < orders.len(),
        a != b,
    ensures
        rank(orders, a, side) != rank(orders, b, side),
{
    if comes_before(orders, a, b, side) {
        lemma_rank_follows_order(orders, a, b, side);
    } else {
        assert(comes_before(orders, b, a, side));
        lemma_rank_follows_order(orders, b, a, side);
    }
}

/// Every rank below the number of orders is the rank of exactly one order,
/// the one that `at_rank` names.
pub proof fn lemma_at_rank(orders: Seq<Order>, k: int, side: Side)
    requires
        0 <= k < orders.len(),
    ensures
        0 <= at_rank(orders, k, side) < orders.len(),
        rank(orders, at_rank(orders, k, side), side) == k,
        forall|t: int|
            0 <= t < orders.len() && #[trigger] rank(orders, t, side) == k ==> t == at_rank(
                orders,
                k,
                side,
            ),
{
    let f = Seq::new(orders.len(), |t: int| rank(orders, t, side) as int);
    assert forall|t: int| 0 <= t < f.len() implies 0 <= #[trigger] f[t] < f.len() by {
        lemma_rank_below_len(orders, t, side);
    }
    assert forall|a: int, b: int| 0 <= a < b < f.len() implies #[trigger] f[a] != #[trigger] f[b] by {
        lemma_rank_distinct(orders, a, b, side);
    }
    lemma_distinct_covers(f, k);
    let w = choose|t: int| 0 <= t < f.len() && f[t] == k;
    assert(0 <= w < orders.len() && rank(orders, w, side) == k);
    assert forall|t: int| 0 <= t < orders.len() && #[trigger] rank(orders, t, side) == k implies t
        == at_rank(orders, k, side) by {
        if t != at_rank(orders, k, side) {
            lemma_rank_distinct(orders, t, at_rank(orders, k, side), side);
        }
    }
}

/// An order's place among the ranked orders is its rank.
pub proof fn lemma_ranked_at_rank(orders: Seq<Order>, t: int, side: Side)
    requires
        0 <= t < orders.len(),
    ensures
        rank(orders, t, side) < orders.len(),
        ranked(orders, side)[rank(orders, t, side) as int] == orders[t],
{
    lemma_rank_below_len(orders, t, side);
    lemma_at_rank(orders, rank(orders, t, side) as int, side);
}

/// The ranked orders stand from the best price on, and equal prices stand in
/// the order in which they were given.
pub proof fn lemma_ranked_in_order(orders: Seq<Order>, k: int, l: int, side: Side)
    requires
        0 <= k < l < orders.len(),
    ensures
        comes_before(orders, at_rank(orders, k, side), at_rank(orders, l, side), side),
        sort_key(ranked(orders, side)[k], side) <= sort_key(ranked(orders, side)[l], side),
{
    lemma_at_rank(orders, k, side);
    lemma_at_rank(orders, l, side);
    let a = at_rank(orders, k, side);
    let b = at_rank(orders, l, side);
    if !comes_before(orders, a, b, side) {
        assert(comes_before(orders, b, a, side));
        lemma_rank_follows_order(orders, b, a, side);
    }
}

/// Positions listed in their order are listed by rank.
proof fn lemma_listed_in_order(orders: Seq<Order>, perm: Seq<int>, side: Side)
    requires
        perm.len() == orders.len(),
        forall|k: int| 0 <= k < perm.len() ==> 0 <= #[trigger] perm[k] < orders.len(),
        forall|k: int, l: int|
            0 <= k < l < perm.len() ==> comes_before(orders, #[trigger] perm[k], #[trigger] perm[l], side),
    ensures
        forall|k: int| 0 <= k < perm.len() ==> at_rank(orders, k, side) == #[trigger] perm[k],
{
    assert forall|k: int, l: int| 0 <= k < l < perm.len() implies #[trigger] perm[k]
        != #[trigger] perm[l] by {
        assert(comes_before(orders, perm[k], perm[l], side));
    }
    assert forall|k: int| 0 <= k < perm.len() implies at_rank(orders, k, side) == #[trigger] perm[k] by {
        let t = perm[k];
        let lower = set_int_range(0, k);
        let g = |l: int| perm[l];
        lemma_int_range(0, k);
        assert(injective_on(g, lower)) by {
            assert forall|a: int, b: int|
                lower.contains(a) && lower.contains(b) && #[trigger] g(a) == #[trigger] g(
                    b,
                ) implies a == b by {
                if a < b {
                    assert(perm[a] != perm[b]);
                } else if b < a {
                    assert(perm[b] != perm[a]);
                }
            }
        }
        assert(lower.map(g) =~= ahead_of(orders, t, side)) by {
            assert forall|j: int| ahead_of(orders, t, side).contains(j) implies lower.map(
                g,
            ).contains(j) by {
                lemma_distinct_covers(perm, j);
                let l = choose|l: int| 0 <= l < perm.len() && perm[l] == j;
                if l > k {
                    assert(comes_before(orders, perm[k], perm[l], side));
                }
                assert(lower.contains(l) && j == g(l));
            }
            assert forall|j: int| lower.map(g).contains(j) implies ahead_of(
                orders,
                t,
                side,
            ).contains(j) by {
                let l = choose|l: int| lower.contains(l) && j == g(l);
                assert(comes_before(orders, perm[l], perm[k], side));
            }
        }
        lemma_map_size(lower, ahead_of(orders, t, side), g);
        assert(rank(orders, t, side) == k);
        lemma_at_rank(orders, k, side);
    }
}

/// Whether `a` has a better price than `b` on the given side.
fn better_price(a: &Order, b: &Order, side: Side) -> (r: bool)
    ensures
        r == (sort_key(*a, side) < sort_key(*b, side)),
{
    match side {
        Side::Ask => a.price.lt(&b.price),
        Side::Bid => b.price.lt(&a.price),
    }
}

/// Sorts orders from the best price on, keeping orders of equal price in the
/// order in which they were given.
pub fn sort_by_price(orders: &Vec<Order>, side: Side) -> (out: Vec<Order>)
    ensures
        out@ == ranked(orders@, side),
{
    let mut out: Vec<Order> = Vec::new();
    let ghost mut perm: Seq<int> = Seq::empty();
    let mut i: usize = 0;
    while i < orders.len()
        invariant
            i <= orders.len(),
            out.len() == i,
            perm.len() == i,
            forall|k: int| 0 <= k < i ==> 0 <= #[trigger] perm[k] < i,
            forall|k: int| 0 <= k < i ==> #[trigger] out[k] == orders[perm[k]],
            forall|k: int, l: int|
                0 <= k < l < i ==> comes_before(orders@, #[trigger] perm[k], #[trigger] perm[l], side),
        decreases orders.len() - i,
    {
        let x = orders[i];
        let mut p: usize = out.len();
        let mut searching = true;
        while searching && p > 0
            invariant
                p <= out.len(),
                out.len() == i,
                i < orders.len(),
                x == orders[i as int],
                forall|k: int| p <= k < i ==> sort_key(x, side) < sort_key(#[trigger] out[k], side),
                !searching ==> p > 0 && sort_key(out[p - 1], side) <= sort_key(x, side),
            decreases p + if searching { 1int } else { 0int },
        {
            if better_price(&x, &out[p - 1], side) {
                p -= 1;
            } else {
                searching = false;
            }
        }
        let ghost old_out = out@;
        let ghost old_perm = perm;
        out.insert(p, x);
        proof {
            perm = old_perm.insert(p as int, i as int);
            assert forall|k: int| 0 <= k < i + 1 implies #[trigger] out[k] == orders[perm[k]] by {
                if k < p {
                    assert(out[k] == old_out[k]);
                } else if k > p {
                    assert(out[k] == old_out[k - 1]);
                }
            }
            assert forall|k: int, l: int| 0 <= k < l < i + 1 implies comes_before(
                orders@,
                #[trigger] perm[k],
                #[trigger] perm[l],
                side,
            ) by {
                if l < p {
                    assert(comes_before(orders@, old_perm[k], old_perm[l], side));
                } else if l == p {
                    assert(old_out[k] == orders[old_perm[k]]);
                    assert(old_out[p - 1] == orders[old_perm[p - 1]]);
                    if k < p - 1 {
                        assert(comes_before(orders@, old_perm[k], old_perm[p - 1], side));
                    }
                } else if k < p {
                    assert(comes_before(orders@, old_perm[k], old_perm[l - 1], side));
                } else if k == p {
                    assert(old_out[l - 1] == orders[old_perm[l - 1]]);
                } else {
                    assert(comes_before(orders@, old_perm[k - 1], old_perm[l - 1], side));
                }
            }
        }
        i += 1;
    }
    proof {
        lemma_listed_in_order(orders@, perm, side);
        assert(out@ =~= ranked(orders@, side));
    }
    out
}

} // verus!
