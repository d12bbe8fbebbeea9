//! The order in which issues are listed: by the time of their last update,
//! earliest first; issues updated at the same instant keep the order in
//! which the server sent them.
use vstd::prelude::*;
use crate::clock::{Stamp, earlier, is_earlier};

verus! {

/// Entry `a` is listed before entry `b`: it was updated earlier, or at the
/// same instant and it came first.
pub open spec fn listed_before(keys: Seq<Stamp>, a: int, b: int) -> bool {
    earlier(keys[a], keys[b]) || (keys[a] == keys[b] && a < b)
}

/// `order` lists every position of `keys` exactly once, each one before
/// every position that follows it in the listing order.
pub open spec fn is_listing_order(keys: Seq<Stamp>, order: Seq<usize>) -> bool {
    &&& order.len() == keys.len()
    &&& forall|k: int| 0 <= k < order.len() ==> #[trigger] order[k] < keys.len()
    &&& forall|v: usize| v < keys.len() ==> #[trigger] order.contains(v)
    &&& forall|i: int, j: int|
        0 <= i < j < order.len() ==> listed_before(keys, #[trigger] order[i] as int, #[trigger] order[j] as int)
}

/// A listing order is chronological: an issue listed before another was
/// updated at an earlier or the same instant (seconds first, then
/// nanoseconds), and issues updated at the same instant keep their given
/// order; every position is listed exactly once.
pub proof fn lemma_listing_order_chronological(keys: Seq<Stamp>, order: Seq<usize>)
    requires
        is_listing_order(keys, order),
    ensures
        forall|i: int, j: int|
            0 <= i < j < order.len() ==> {
                let a = keys[#[trigger] order[i] as int];
                let b = keys[#[trigger] order[j] as int];
                &&& a.secs <= b.secs
                &&& a.secs == b.secs ==> a.nanos <= b.nanos
                &&& (a.secs == b.secs && a.nanos == b.nanos) ==> order[i] < order[j]
            },
        forall|i: int, j: int| 0 <= i < j < order.len() ==> #[trigger] order[i] != #[trigger] order[j],
{
    assert forall|i: int, j: int| 0 <= i < j < order.len() implies order[i] != order[j] by {
        assert(listed_before(keys, order[i] as int, order[j] as int));
    }
}

/// An issue updated at a strictly earlier instant is listed before one
/// updated later.
pub proof fn lemma_earlier_update_listed_first(keys: Seq<Stamp>, order: Seq<usize>, i: int, j: int)
    requires
        is_listing_order(keys, order),
        0 <= i < order.len(),
        0 <= j < order.len(),
        keys[order[i] as int].secs < keys[order[j] as int].secs
            || (keys[order[i] as int].secs == keys[order[j] as int].secs
                && keys[order[i] as int].nanos < keys[order[j] as int].nanos),
    ensures
        i < j,
{
    if j < i {
        assert(listed_before(keys, order[j] as int, order[i] as int));
    } else if j == i {
    }
}

/// Listing before is a strict order.
proof fn lemma_listed_before_strict(keys: Seq<Stamp>, a: int, b: int, c: int)
    ensures
        !(listed_before(keys, a, b) && listed_before(keys, b, a)),
        listed_before(keys, a, b) && listed_before(keys, b, c) ==> listed_before(keys, a, c),
        0 <= a < keys.len() && 0 <= b < keys.len() && a != b ==> listed_before(keys, a, b) || listed_before(keys, b, a),
{
}

/// Two listing orders of `keys` agree on their first `k` positions.
proof fn lemma_listing_orders_agree(keys: Seq<Stamp>, p: Seq<usize>, q: Seq<usize>, k: int)
    requires
        is_listing_order(keys, p),
        is_listing_order(keys, q),
        0 <= k <= p.len(),
    ensures
        forall|i: int| 0 <= i < k ==> p[i] == q[i],
    decreases k,
{
    if k > 0 {
        lemma_listing_orders_agree(keys, p, q, k - 1);
        let j = k - 1;
        if p[j] != q[j] {
            // where q[j] stands in p, and p[j] in q
            let qj = q[j] as int;
            let pj = p[j] as int;
            assert(0 <= qj < keys.len());
            assert(0 <= pj < keys.len());
            assert(p.contains(q[j]));
            assert(q.contains(p[j]));
            let m = choose|m: int| 0 <= m < p.len() && p[m] == q[j];
            let m2 = choose|m2: int| 0 <= m2 < q.len() && q[m2] == p[j];
            if m < j {
                assert(p[m] == q[m]);
                assert(listed_before(keys, q[m] as int, q[j] as int));
                lemma_listed_before_strict(keys, qj, qj, qj);
            } else if m2 < j {
                assert(q[m2] == p[m2]);
                assert(listed_before(keys, p[m2] as int, p[j] as int));
                lemma_listed_before_strict(keys, pj, pj, pj);
            } else {
                assert(m != j);
                assert(m2 != j);
                assert(listed_before(keys, p[j] as int, p[m] as int));
                assert(listed_before(keys, q[j] as int, q[m2] as int));
                lemma_listed_before_strict(keys, pj, qj, pj);
            }
        }
    }
}

/// There is one listing order: two orders that both list `keys` are equal.
pub proof fn lemma_listing_order_unique(keys: Seq<Stamp>, p: Seq<usize>, q: Seq<usize>)
    requires
        is_listing_order(keys, p),
        is_listing_order(keys, q),
    ensures
        p == q,
{
    lemma_listing_orders_agree(keys, p, q, p.len() as int);
    assert(p =~= q);
}

/// The listing order of `keys`: positions sorted by instant, earliest
/// first, ties kept in the order they were given.
pub fn listing_order(keys: &Vec<Stamp>) -> (order: Vec<usize>)
    ensures
        is_listing_order(keys@, order@),
{
    let n = keys.len();
    let mut order: Vec<usize> = Vec::new();
    for k in 0..n
        invariant
            n == keys.len(),
            order@.len() == k,
            forall|i: int| 0 <= i < order@.len() ==> #[trigger] order@[i] < k,
            forall|v: usize| v < k ==> #[trigger] order@.contains(v),
            forall|i: int, j: int|
                0 <= i < j < order@.len() ==> listed_before(keys@, #[trigger] order@[i] as int, #[trigger] order@[j] as int),
    {
        // everything from `p` on was updated strictly later than entry `k`
        let mut p = order.len();
        while p > 0 && is_earlier(keys[k], keys[order[p - 1]])
            invariant
                n == keys.len(),
                k < n,
                p <= order@.len(),
                order@.len() == k,
                forall|i: int| 0 <= i < order@.len() ==> #[trigger] order@[i] < k,
                forall|q: int| p <= q < order@.len() ==> earlier(keys@[k as int], keys@[#[trigger] order@[q] as int]),
            decreases p,
        {
            p = p - 1;
        }
        let ghost before_insert = order@;
        proof {
            if p > 0 {
                assert(!earlier(keys@[k as int], keys@[order@[p - 1] as int]));
                assert forall|i: int| 0 <= i < p implies listed_before(keys@, #[trigger] order@[i] as int, k as int) by {
                    if i < p - 1 {
                        assert(listed_before(keys@, order@[i] as int, order@[p - 1] as int));
                    }
                    lemma_listed_before_strict(keys@, order@[i] as int, order@[p - 1] as int, k as int);
                }
            }
        }
        order.insert(p, k);
        proof {
            assert(order@ =~= before_insert.insert(p as int, k));
            assert forall|v: usize| v < k + 1 implies #[trigger] order@.contains(v) by {
                if v == k {
                    assert(order@[p as int] == k);
                } else {
                    assert(before_insert.contains(v));
                    let i0 = choose|i: int| 0 <= i < before_insert.len() && before_insert[i] == v;
                    if i0 < p {
                        assert(order@[i0] == v);
                    } else {
                        assert(order@[i0 + 1] == v);
                    }
                }
            }
            assert forall|i: int, j: int| 0 <= i < j < order@.len() implies
                listed_before(keys@, #[trigger] order@[i] as int, #[trigger] order@[j] as int) by {
                if j < p {
                    assert(order@[i] == before_insert[i] && order@[j] == before_insert[j]);
                } else if j == p {
                    assert(order@[i] == before_insert[i]);
                } else if i == p {
                    assert(order@[j] == before_insert[j - 1]);
                } else if i < p {
                    assert(order@[i] == before_insert[i] && order@[j] == before_insert[j - 1]);
                } else {
                    assert(order@[i] == before_insert[i - 1] && order@[j] == before_insert[j - 1]);
                }
            }
        }
    }
    order
}

} // verus!
