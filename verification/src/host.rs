//! What carrying out a report does to the collection at its host.
//!
//! The host keeps the entries in a sequence. A move takes one entry out and
//! puts it back at the position named. The laws here say where a sequence of
//! moves leaves the collection.

use crate::item::Item;
use crate::reconcile::planned_action;
use crate::sort::canonical_order;
use vstd::prelude::*;

verus! {

/// The collection `s` after the entry `e` was taken out and put back at
/// position `i`.
pub open spec fn moved(s: Seq<Item>, e: Item, i: int) -> Seq<Item> {
    s.remove(s.index_of(e)).insert(i, e)
}

/// The collection `s` after the first `n` entries of `order` were moved,
/// one after the other from the front, each to the position it has in
/// `order`.
pub open spec fn after_moves(s: Seq<Item>, order: Seq<Item>, n: int) -> Seq<Item>
    decreases n,
{
    if n <= 0 {
        s
    } else {
        moved(after_moves(s, order, n - 1), order[n - 1], n - 1)
    }
}

/// Moving the first `n` entries of `order` to their positions puts them in
/// front, in the order they have in `order`, and loses no entry.
pub proof fn lemma_moves_settle_the_front(s: Seq<Item>, order: Seq<Item>, n: int)
    requires
        order.no_duplicates(),
        s.to_multiset() == order.to_multiset(),
        0 <= n <= order.len(),
    ensures
        after_moves(s, order, n).to_multiset() == order.to_multiset(),
        after_moves(s, order, n).len() == order.len(),
        after_moves(s, order, n).take(n) == order.take(n),
    decreases n,
{
    broadcast use vstd::seq_lib::to_multiset_len;

    if n == 0 {
        assert(s.take(0) =~= order.take(0));
        assert(s.len() == s.to_multiset().len());
        assert(order.len() == order.to_multiset().len());
    } else {
        lemma_moves_settle_the_front(s, order, n - 1);
        let before = after_moves(s, order, n - 1);
        let x = order[n - 1];
        assert(before.contains(x)) by {
            assert(order[n - 1] == x);
            assert(order.contains(x));
            vstd::seq_lib::to_multiset_contains(order, x);
            vstd::seq_lib::to_multiset_contains(before, x);
        }
        let p = before.index_of(x);
        assert(0 <= p < before.len() && before[p] == x);
        assert(p >= n - 1) by {
            if p < n - 1 {
                assert(before.take(n - 1)[p] == order.take(n - 1)[p]);
                assert(order[p] == order[n - 1]);
            }
        }
        let taken = before.remove(p);
        let after = taken.insert(n - 1, x);
        assert(after == after_moves(s, order, n));
        assert(after.to_multiset() == order.to_multiset()) by {
            broadcast use vstd::multiset::group_multiset_axioms;

            vstd::seq_lib::to_multiset_remove(before, p);
            vstd::seq_lib::to_multiset_insert(taken, n - 1, x);
            vstd::seq_lib::to_multiset_contains(before, x);
            assert(before.to_multiset().remove(x).insert(x) =~= before.to_multiset());
        }
        assert(after.take(n) =~= order.take(n)) by {
            assert forall|k: int| 0 <= k < n implies after.take(n)[k] == order.take(n)[k] by {
                if k < n - 1 {
                    assert(before.take(n - 1)[k] == order.take(n - 1)[k]);
                }
            }
        }
    }
}

/// Where no entry stands twice, moving every entry, in canonical order, to
/// its position in the canonical order leaves the collection in exactly the
/// canonical order.
pub proof fn lemma_moves_reach_canonical_order(observed: Seq<Item>)
    requires
        observed.no_duplicates(),
    ensures
        after_moves(observed, canonical_order(observed), observed.len() as int) == canonical_order(
            observed,
        ),
{
    let order = canonical_order(observed);
    crate::sort::lemma_canonical_order_permutes(observed);
    assert(order.no_duplicates()) by {
        observed.lemma_multiset_has_no_duplicates();
        order.lemma_multiset_has_no_duplicates_conv();
    }
    lemma_moves_settle_the_front(observed, order, order.len() as int);
    let end = after_moves(observed, order, order.len() as int);
    assert(end.take(order.len() as int) =~= end);
    assert(order.take(order.len() as int) =~= order);
}

/// The collection `s` after those of the first `n` entries of `order` that
/// `stays` picks were moved, one after the other from the front, each to the
/// position it has in `order`. The entries that `stays` does not pick are
/// left where they are.
pub open spec fn after_picked_moves(
    s: Seq<Item>,
    order: Seq<Item>,
    stays: spec_fn(int) -> bool,
    n: int,
) -> Seq<Item>
    decreases n,
{
    if n <= 0 {
        s
    } else if stays(n - 1) {
        moved(after_picked_moves(s, order, stays, n - 1), order[n - 1], n - 1)
    } else {
        after_picked_moves(s, order, stays, n - 1)
    }
}

/// In a sequence without duplicates an entry is found where it stands.
proof fn lemma_found_where_it_stands(s: Seq<Item>, i: int)
    requires
        s.no_duplicates(),
        0 <= i < s.len(),
    ensures
        s.index_of(s[i]) == i,
{
    let found = s.index_of(s[i]);
    assert(0 <= found < s.len() && s[found] == s[i]);
}

/// Moving only some entries still puts those in the order they have in
/// `order`, and every position that a move names exists when it is used:
/// after the moves among the first `n` entries, each moved entry stands at
/// or before the position it was moved to, and before every entry moved
/// after it.
pub proof fn lemma_picked_moves_keep_order(
    s: Seq<Item>,
    order: Seq<Item>,
    stays: spec_fn(int) -> bool,
    n: int,
)
    requires
        order.no_duplicates(),
        s.to_multiset() == order.to_multiset(),
        0 <= n <= order.len(),
    ensures
        after_picked_moves(s, order, stays, n).to_multiset() == order.to_multiset(),
        after_picked_moves(s, order, stays, n).len() == order.len(),
        after_picked_moves(s, order, stays, n).no_duplicates(),
        forall|a: int|
            0 <= a < n && stays(a) ==> 0 <= after_picked_moves(s, order, stays, n).index_of(
                #[trigger] order[a],
            ) <= a,
        forall|a: int, b: int|
            0 <= a < b < n && stays(a) && stays(b) ==> after_picked_moves(
                s,
                order,
                stays,
                n,
            ).index_of(#[trigger] order[a]) < after_picked_moves(s, order, stays, n).index_of(
                #[trigger] order[b],
            ),
    decreases n,
{
    broadcast use vstd::seq_lib::to_multiset_len;

    if n == 0 {
        assert(s.len() == s.to_multiset().len());
        assert(order.len() == order.to_multiset().len());
        order.lemma_multiset_has_no_duplicates();
        s.lemma_multiset_has_no_duplicates_conv();
    } else {
        lemma_picked_moves_keep_order(s, order, stays, n - 1);
        if stays(n - 1) {
            let before = after_picked_moves(s, order, stays, n - 1);
            let x = order[n - 1];
            assert(before.contains(x)) by {
                assert(order.contains(x));
                vstd::seq_lib::to_multiset_contains(order, x);
                vstd::seq_lib::to_multiset_contains(before, x);
            }
            let p = before.index_of(x);
            assert(0 <= p < before.len() && before[p] == x);
            let taken = before.remove(p);
            let after = taken.insert(n - 1, x);
            assert(after == after_picked_moves(s, order, stays, n));
            assert(after.to_multiset() == order.to_multiset()) by {
                broadcast use vstd::multiset::group_multiset_axioms;

                vstd::seq_lib::to_multiset_remove(before, p);
                vstd::seq_lib::to_multiset_insert(taken, n - 1, x);
                vstd::seq_lib::to_multiset_contains(before, x);
                assert(before.to_multiset().remove(x).insert(x) =~= before.to_multiset());
            }
            assert(after.no_duplicates()) by {
                order.lemma_multiset_has_no_duplicates();
                after.lemma_multiset_has_no_duplicates_conv();
            }
            assert(after[n - 1] == x);
            lemma_found_where_it_stands(after, n - 1);
            assert forall|a: int| 0 <= a < n - 1 && stays(a) implies after.index_of(
                #[trigger] order[a],
            ) == before.index_of(order[a]) - if before.index_of(order[a]) > p {
                1int
            } else {
                0int
            } by {
                let q = before.index_of(order[a]);
                assert(order.contains(order[a]));
                vstd::seq_lib::to_multiset_contains(order, order[a]);
                vstd::seq_lib::to_multiset_contains(before, order[a]);
                assert(0 <= q < before.len() && before[q] == order[a]);
                assert(order[a] != x);
                assert(q != p);
                let q1 = if q > p {
                    q - 1
                } else {
                    q
                };
                assert(taken[q1] == order[a]);
                assert(q1 < n - 1);
                assert(after[q1] == order[a]);
                lemma_found_where_it_stands(after, q1);
            }
            assert forall|a: int, b: int| 0 <= a < b < n && stays(a) && stays(b) implies after.index_of(
                #[trigger] order[a],
            ) < after.index_of(#[trigger] order[b]) by {
                let qa = before.index_of(order[a]);
                assert(0 <= qa <= a);
                if b < n - 1 {
                    let qb = before.index_of(order[b]);
                    assert(qa < qb);
                    assert(order.contains(order[a]) && order.contains(order[b]));
                    vstd::seq_lib::to_multiset_contains(order, order[a]);
                    vstd::seq_lib::to_multiset_contains(before, order[a]);
                    vstd::seq_lib::to_multiset_contains(order, order[b]);
                    vstd::seq_lib::to_multiset_contains(before, order[b]);
                    assert(before[qa] == order[a] && before[qb] == order[b]);
                    assert(qa != p && qb != p);
                } else {
                    assert(after.index_of(order[b]) == n - 1);
                }
            }
        }
    }
}

/// Where no entry stands twice, carrying out the moves of a report in the
/// order of the report leaves the moved entries in the order they have in
/// the canonical order, whatever stands between them. Taking the removed
/// entries out afterwards does not change that.
pub proof fn lemma_report_moves_keep_order(observed: Seq<Item>, cap: Option<usize>, a: int, b: int)
    requires
        observed.no_duplicates(),
        0 <= a < b < observed.len(),
        planned_action(observed, cap, a) is Reorder,
        planned_action(observed, cap, b) is Reorder,
    ensures
        ({
            let order = canonical_order(observed);
            let picked = |i: int| planned_action(observed, cap, i) is Reorder;
            let end = after_picked_moves(observed, order, picked, observed.len() as int);
            end.index_of(order[a]) < end.index_of(order[b])
        }),
{
    let order = canonical_order(observed);
    let picked = |i: int| planned_action(observed, cap, i) is Reorder;
    crate::sort::lemma_canonical_order_permutes(observed);
    assert(order.no_duplicates()) by {
        observed.lemma_multiset_has_no_duplicates();
        order.lemma_multiset_has_no_duplicates_conv();
    }
    lemma_picked_moves_keep_order(observed, order, picked, order.len() as int);
    assert(picked(a) && picked(b));
}

} // verus!
