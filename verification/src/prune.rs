//! Which entries leave the collection.
//!
//! An entry leaves on its own account when it is blocked or has neither a
//! scheduled nor a published time. Of the viewable entries that remain, only
//! the first `max_retained` stay; the ones behind them are surplus. Entries
//! that are scheduled and not yet viewable always stay.

use crate::item::text_of;
use crate::item::Item;
use crate::item::ItemProperties;
use crate::item::Pruning;
use vstd::prelude::*;

verus! {

/// True for the entries that the cap counts: viewable, and with no reason
/// of their own to leave.
pub open spec fn counts_towards_cap(v: Item) -> bool {
    v.prune_reason() is None && v.is_viewable()
}

/// The entries of `s` that the cap counts, in the order they stand in.
pub open spec fn counted(s: Seq<Item>) -> Seq<Item> {
    s.filter(|e: Item| counts_towards_cap(e))
}

/// How many of the first `i` entries of `s` the cap counts.
pub open spec fn counted_before(s: Seq<Item>, i: int) -> nat {
    counted(s.take(i)).len()
}

/// What happens to entry `i` of `s` under the cap `max_retained`: the reason
/// for which it leaves, or `None` where it stays.
pub open spec fn decision(s: Seq<Item>, max_retained: nat, i: int) -> Option<Seq<char>> {
    if s[i].prune_reason() is Some {
        s[i].prune_reason()
    } else if s[i].is_viewable() && counted_before(s, i) >= max_retained {
        Some("surplus"@)
    } else {
        None
    }
}

/// Taking one entry more counts one more exactly when that entry counts.
pub proof fn lemma_counted_before_step(s: Seq<Item>, i: int)
    requires
        0 <= i < s.len(),
    ensures
        counted_before(s, 0) == 0,
        counted_before(s, i + 1) == counted_before(s, i) + if counts_towards_cap(s[i]) {
            1nat
        } else {
            0nat
        },
        counted_before(s, i) <= i,
    decreases i,
{
    reveal(Seq::filter);
    assert(s.take(i + 1).drop_last() =~= s.take(i));
    assert(s.take(i + 1).last() == s[i]);
    if i > 0 {
        lemma_counted_before_step(s, i - 1);
    }
}

/// Decides for every entry, in the order given, whether it stays. The
/// result has one element per entry: `None` for an entry that stays, else
/// the reason for which it leaves.
pub fn prune_decisions(items: &Vec<Item>, max_retained: usize) -> (decisions: Vec<Option<String>>)
    ensures
        decisions@.len() == items@.len(),
        forall|i: int|
            0 <= i < items@.len() ==> text_of(#[trigger] decisions@[i]) == decision(
                items@,
                max_retained as nat,
                i,
            ),
{
    let mut decisions: Vec<Option<String>> = Vec::new();
    let mut counted: usize = 0;
    let mut i: usize = 0;
    while i < items.len()
        invariant
            i <= items.len(),
            decisions@.len() == i,
            counted == counted_before(items@, i as int),
            counted <= i,
            forall|k: int|
                0 <= k < i ==> text_of(#[trigger] decisions@[k]) == decision(
                    items@,
                    max_retained as nat,
                    k,
                ),
        decreases items.len() - i,
    {
        proof {
            lemma_counted_before_step(items@, i as int);
        }
        let item = &items[i];
        let own_reason = item.prune();
        let verdict = if own_reason.is_some() {
            own_reason
        } else if item.viewable() {
            counted += 1;
            if counted > max_retained {
                Some("surplus".to_owned())
            } else {
                None
            }
        } else {
            None
        };
        decisions.push(verdict);
        i += 1;
    }
    decisions
}

/// A blocked entry leaves as blocked whatever else holds of it; an
/// unblocked entry without a scheduled and without a published time leaves
/// as such; any other entry stays unless the cap makes it surplus.
pub proof fn lemma_decision_reasons(s: Seq<Item>, max_retained: nat, i: int)
    requires
        0 <= i < s.len(),
    ensures
        s[i].blocked ==> decision(s, max_retained, i) == Some("blocked"@),
        !s[i].blocked && s[i].scheduled_start_time is None && s[i].published_at is None
            ==> decision(s, max_retained, i) == Some("unscheduled and unpublished"@),
        !s[i].blocked && (s[i].scheduled_start_time is Some || s[i].published_at is Some) ==> (
        decision(s, max_retained, i) is None || decision(s, max_retained, i) == Some("surplus"@)),
        !s[i].is_viewable() && s[i].prune_reason() is None ==> decision(s, max_retained, i) is None,
{
}

/// Where every entry counts towards the cap, nothing but the cap decides:
/// the first `max_retained` entries stay and all behind them are surplus.
pub proof fn lemma_cap_keeps_a_prefix(s: Seq<Item>, max_retained: nat, i: int)
    requires
        forall|k: int| 0 <= k < s.len() ==> counts_towards_cap(#[trigger] s[k]),
        0 <= i < s.len(),
    ensures
        counted_before(s, i) == i,
        i < max_retained ==> decision(s, max_retained, i) is None,
        i >= max_retained ==> decision(s, max_retained, i) == Some("surplus"@),
    decreases i,
{
    lemma_counted_before_step(s, i);
    if i > 0 {
        lemma_cap_keeps_a_prefix(s, max_retained, i - 1);
        lemma_counted_before_step(s, i - 1);
    }
}

/// In any collection the cap keeps the counted entries from the front: if
/// one of them stays, every counted entry before it stays as well, and one
/// that stays has fewer than `max_retained` counted entries before it.
pub proof fn lemma_cap_keeps_the_first(s: Seq<Item>, max_retained: nat, i: int, j: int)
    requires
        0 <= i <= j < s.len(),
        counts_towards_cap(s[i]),
        counts_towards_cap(s[j]),
    ensures
        counted_before(s, i) <= counted_before(s, j),
        decision(s, max_retained, j) is None ==> decision(s, max_retained, i) is None,
        decision(s, max_retained, j) is None <==> counted_before(s, j) < max_retained,
{
    lemma_monotone_count(s, i, j);
}

/// Counting further along never counts less.
proof fn lemma_monotone_count(s: Seq<Item>, i: int, j: int)
    requires
        0 <= i <= j < s.len(),
    ensures
        counted_before(s, i) <= counted_before(s, j),
    decreases j - i,
{
    if i < j {
        lemma_counted_before_step(s, j - 1);
        lemma_monotone_count(s, i, j - 1);
    }
}

/// The entries among the first `n` of `s` that stay under the cap, in the
/// order they stand in.
pub open spec fn staying(s: Seq<Item>, max_retained: nat, n: int) -> Seq<Item>
    decreases n,
{
    if n <= 0 {
        Seq::empty()
    } else if decision(s, max_retained, n - 1) is None {
        staying(s, max_retained, n - 1).push(s[n - 1])
    } else {
        staying(s, max_retained, n - 1)
    }
}

/// Where every entry counts towards the cap, the entries that stay are the
/// first `max_retained` of them, or all of them where there are fewer.
pub proof fn lemma_cap_enforced(s: Seq<Item>, max_retained: nat, n: int)
    requires
        forall|k: int| 0 <= k < s.len() ==> counts_towards_cap(#[trigger] s[k]),
        0 <= n <= s.len(),
    ensures
        staying(s, max_retained, n) == s.take(if n <= max_retained { n } else { max_retained as int }),
        staying(s, max_retained, n).len() == if n <= max_retained { n } else { max_retained as int },
    decreases n,
{
    if n > 0 {
        lemma_cap_enforced(s, max_retained, n - 1);
        lemma_cap_keeps_a_prefix(s, max_retained, n - 1);
        if n - 1 < max_retained {
            assert(s.take(n - 1).push(s[n - 1]) =~= s.take(n));
        }
    } else {
        assert(s.take(0) =~= Seq::<Item>::empty());
    }
}

/// In any collection, the counted entries that stay are the first
/// `max_retained` of the counted entries, or all of them where there are
/// fewer; every other counted entry is surplus.
pub proof fn lemma_cap_on_any_collection(s: Seq<Item>, max_retained: nat, n: int)
    requires
        0 <= n <= s.len(),
    ensures
        counted(staying(s, max_retained, n)) == counted(s.take(n)).take(
            if counted_before(s, n) <= max_retained {
                counted_before(s, n) as int
            } else {
                max_retained as int
            },
        ),
        forall|i: int|
            0 <= i < s.len() && counts_towards_cap(#[trigger] s[i]) ==> decision(s, max_retained, i)
                is None || decision(s, max_retained, i) == Some("surplus"@),
    decreases n,
{
    reveal(Seq::filter);
    if n > 0 {
        lemma_cap_on_any_collection(s, max_retained, n - 1);
        let e = s[n - 1];
        let before = counted(s.take(n - 1));
        let stay = staying(s, max_retained, n - 1);
        assert(s.take(n).drop_last() =~= s.take(n - 1));
        assert(s.take(n).last() == e);
        if counts_towards_cap(e) {
            assert(counted(s.take(n)) == before.push(e));
            if before.len() < max_retained {
                assert(stay.push(e).drop_last() =~= stay);
                assert(counted(stay.push(e)) == counted(stay).push(e));
                assert(before.take(before.len() as int) =~= before);
                assert(before.push(e).take(before.len() as int + 1) =~= before.push(e));
            } else {
                assert(before.push(e).take(max_retained as int) =~= before.take(
                    max_retained as int,
                ));
            }
        } else {
            assert(counted(s.take(n)) == before);
            if decision(s, max_retained, n - 1) is None {
                assert(stay.push(e).drop_last() =~= stay);
                assert(counted(stay.push(e)) == counted(stay));
            }
        }
    } else {
        assert(counted(s.take(0)).take(0) =~= Seq::<Item>::empty());
    }
}

/// In an ordered collection the cap takes the oldest: a counted entry that
/// stays is never earlier than a counted entry that is surplus, and stands
/// before it.
pub proof fn lemma_surplus_is_oldest(s: Seq<Item>, max_retained: nat, i: int, j: int)
    requires
        crate::sort::ordered(s),
        0 <= i < s.len(),
        0 <= j < s.len(),
        counts_towards_cap(s[i]),
        counts_towards_cap(s[j]),
        decision(s, max_retained, i) is None,
        decision(s, max_retained, j) is Some,
    ensures
        i < j,
        decision(s, max_retained, j) == Some("surplus"@),
        !s[i].viewable_at()->0.earlier_than(s[j].viewable_at()->0),
{
    if j <= i {
        lemma_monotone_count(s, j, i);
    }
    assert(!crate::order::precedes(s[j], s[i]));
}

} // verus!
