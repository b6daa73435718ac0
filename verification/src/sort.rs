//! The canonical order of a collection, and the sort that produces it.

use crate::item::Item;
use crate::order::comes_before;
use crate::order::precedes;
use crate::order::tied;
use vstd::prelude::*;

verus! {

/// `s` with `x` put in behind the last entry that `x` does not precede.
pub open spec fn insert_ordered(s: Seq<Item>, x: Item) -> Seq<Item>
    decreases s.len(),
{
    if s.len() > 0 && precedes(x, s.last()) {
        insert_ordered(s.drop_last(), x).push(s.last())
    } else {
        s.push(x)
    }
}

/// The canonical order of `s`: its entries taken from the front, each put in
/// behind the last entry already placed that it does not precede.
pub open spec fn canonical_order(s: Seq<Item>) -> Seq<Item>
    decreases s.len(),
{
    if s.len() == 0 {
        s
    } else {
        insert_ordered(canonical_order(s.drop_last()), s.last())
    }
}

/// True when no entry of `s` precedes an entry that stands before it.
pub open spec fn ordered(s: Seq<Item>) -> bool {
    forall|i: int, j: int| 0 <= i < j < s.len() ==> !precedes(#[trigger] s[j], #[trigger] s[i])
}

/// Where `x` goes: every entry from `p` on is preceded by `x`, and the
/// entry just before `p`, if there is one, is not.
proof fn lemma_insert_position(s: Seq<Item>, x: Item, p: int)
    requires
        0 <= p <= s.len(),
        forall|k: int| p <= k < s.len() ==> precedes(x, #[trigger] s[k]),
        p > 0 ==> !precedes(x, s[p - 1]),
    ensures
        insert_ordered(s, x) == s.insert(p, x),
    decreases s.len(),
{
    if p == s.len() {
        assert(s.insert(p, x) =~= s.push(x));
    } else {
        assert(precedes(x, s[s.len() - 1]));
        lemma_insert_position(s.drop_last(), x, p);
        assert(s.insert(p, x) =~= s.drop_last().insert(p, x).push(s.last()));
    }
}

/// Putting an entry in keeps the length plus one and keeps every entry.
pub proof fn lemma_insert_ordered_permutes(s: Seq<Item>, x: Item)
    ensures
        insert_ordered(s, x).len() == s.len() + 1,
        insert_ordered(s, x).to_multiset() == s.to_multiset().insert(x),
    decreases s.len(),
{
    broadcast use vstd::seq_lib::to_multiset_build;

    if s.len() > 0 && precedes(x, s.last()) {
        lemma_insert_ordered_permutes(s.drop_last(), x);
        assert(s.drop_last().push(s.last()) =~= s);
        assert(insert_ordered(s, x).to_multiset() =~= s.to_multiset().insert(x));
    }
}

/// Putting an entry into an ordered sequence leaves it ordered.
pub proof fn lemma_insert_ordered_keeps_order(s: Seq<Item>, x: Item)
    requires
        ordered(s),
    ensures
        ordered(insert_ordered(s, x)),
    decreases s.len(),
{
    let r = insert_ordered(s, x);
    if s.len() > 0 && precedes(x, s.last()) {
        let front = insert_ordered(s.drop_last(), x);
        assert(ordered(s.drop_last())) by {
            assert forall|i: int, j: int| 0 <= i < j < s.drop_last().len() implies !precedes(
                #[trigger] s.drop_last()[j],
                #[trigger] s.drop_last()[i],
            ) by {
                assert(s.drop_last()[j] == s[j] && s.drop_last()[i] == s[i]);
            }
        }
        lemma_insert_ordered_keeps_order(s.drop_last(), x);
        lemma_insert_ordered_permutes(s.drop_last(), x);
        assert forall|i: int, j: int| 0 <= i < j < r.len() implies !precedes(
            #[trigger] r[j],
            #[trigger] r[i],
        ) by {
            if j < front.len() {
                assert(r[j] == front[j] && r[i] == front[i]);
            } else {
                assert(r[j] == s.last());
                assert(r[i] == front[i]);
                lemma_member_of_insert(s.drop_last(), x, i);
                if front[i] != x {
                    let k = choose|k: int| 0 <= k < s.drop_last().len() && s.drop_last()[k] == front[i];
                    assert(s[k] == front[i]);
                    assert(!precedes(s[s.len() - 1], s[k]));
                }
            }
        }
    } else {
        assert forall|i: int, j: int| 0 <= i < j < r.len() implies !precedes(
            #[trigger] r[j],
            #[trigger] r[i],
        ) by {
            if j < s.len() {
                assert(r[j] == s[j] && r[i] == s[i]);
            } else {
                assert(r[j] == x);
                assert(r[i] == s[i]);
                assert(!precedes(s[s.len() - 1], s[i]));
            }
        }
    }
}

/// Every entry of `insert_ordered(s, x)` is `x` or an entry of `s`.
proof fn lemma_member_of_insert(s: Seq<Item>, x: Item, i: int)
    requires
        0 <= i < insert_ordered(s, x).len(),
    ensures
        insert_ordered(s, x)[i] == x || exists|k: int|
            0 <= k < s.len() && s[k] == insert_ordered(s, x)[i],
    decreases s.len(),
{
    lemma_insert_ordered_permutes(s, x);
    if s.len() > 0 && precedes(x, s.last()) {
        lemma_insert_ordered_permutes(s.drop_last(), x);
        if i < s.len() {
            lemma_member_of_insert(s.drop_last(), x, i);
            let front = insert_ordered(s.drop_last(), x);
            if front[i] != x {
                let k = choose|k: int| 0 <= k < s.drop_last().len() && s.drop_last()[k] == front[i];
                assert(s[k] == front[i]);
            }
        } else {
            assert(s[s.len() - 1] == insert_ordered(s, x)[i]);
        }
    } else {
        if i < s.len() {
            assert(s[i] == insert_ordered(s, x)[i]);
        }
    }
}

/// The canonical order holds the same entries, each as often as before.
pub proof fn lemma_canonical_order_permutes(s: Seq<Item>)
    ensures
        canonical_order(s).len() == s.len(),
        canonical_order(s).to_multiset() == s.to_multiset(),
    decreases s.len(),
{
    broadcast use vstd::seq_lib::to_multiset_build;

    if s.len() > 0 {
        lemma_canonical_order_permutes(s.drop_last());
        lemma_insert_ordered_permutes(canonical_order(s.drop_last()), s.last());
        assert(s.drop_last().push(s.last()) =~= s);
    }
}

/// In the canonical order no entry precedes one that stands before it.
pub proof fn lemma_canonical_order_is_ordered(s: Seq<Item>)
    ensures
        ordered(canonical_order(s)),
    decreases s.len(),
{
    if s.len() > 0 {
        lemma_canonical_order_is_ordered(s.drop_last());
        lemma_insert_ordered_keeps_order(canonical_order(s.drop_last()), s.last());
    }
}

/// A sequence is its own canonical order exactly when it is ordered.
pub proof fn lemma_ordered_iff_canonical(s: Seq<Item>)
    ensures
        ordered(s) <==> canonical_order(s) == s,
    decreases s.len(),
{
    lemma_canonical_order_is_ordered(s);
    if ordered(s) && s.len() > 0 {
        let front = s.drop_last();
        assert(ordered(front)) by {
            assert forall|i: int, j: int| 0 <= i < j < front.len() implies !precedes(
                #[trigger] front[j],
                #[trigger] front[i],
            ) by {
                assert(front[j] == s[j] && front[i] == s[i]);
            }
        }
        lemma_ordered_iff_canonical(front);
        if front.len() > 0 {
            assert(front.last() == s[s.len() - 2]);
            assert(!precedes(s[s.len() - 1], s[s.len() - 2]));
        }
        assert(front.push(s.last()) =~= s);
    }
}

/// Sorting twice gives what sorting once gives.
pub proof fn lemma_canonical_order_idempotent(s: Seq<Item>)
    ensures
        canonical_order(canonical_order(s)) == canonical_order(s),
{
    lemma_canonical_order_is_ordered(s);
    lemma_ordered_iff_canonical(canonical_order(s));
}

/// The entries tied with `y`, in the order they stand in `s`.
pub open spec fn tied_with(s: Seq<Item>, y: Item) -> Seq<Item> {
    s.filter(|e: Item| tied(e, y))
}

/// Putting `x` in moves no entry past one it is tied with: the entries tied
/// with `y` keep their order, and `x` joins them at the end if it is one of
/// them.
pub proof fn lemma_insert_ordered_stable(s: Seq<Item>, x: Item, y: Item)
    ensures
        tied_with(insert_ordered(s, x), y) == if tied(x, y) {
            tied_with(s, y).push(x)
        } else {
            tied_with(s, y)
        },
    decreases s.len(),
{
    let class = |e: Item| tied(e, y);
    reveal(Seq::filter);
    if s.len() > 0 && precedes(x, s.last()) {
        let front = insert_ordered(s.drop_last(), x);
        lemma_insert_ordered_stable(s.drop_last(), x, y);
        assert(front.push(s.last()).drop_last() =~= front);
        assert(front.push(s.last()).last() == s.last());
        if tied(x, y) {
            crate::order::lemma_tied_entries_order_alike(x, y, s.last());
            assert(!class(s.last()));
        }
    } else {
        assert(s.push(x).drop_last() =~= s);
        assert(s.push(x).last() == x);
    }
}

/// Sorting is stable: entries that are tied stand in the canonical order as
/// they stood before.
pub proof fn lemma_canonical_order_stable(s: Seq<Item>, y: Item)
    ensures
        tied_with(canonical_order(s), y) == tied_with(s, y),
    decreases s.len(),
{
    reveal(Seq::filter);
    if s.len() > 0 {
        lemma_canonical_order_stable(s.drop_last(), y);
        lemma_insert_ordered_stable(canonical_order(s.drop_last()), s.last(), y);
    }
}

/// What `tied_with` makes of a sequence that ends in `x`.
proof fn lemma_tied_with_last(s: Seq<Item>, y: Item)
    requires
        s.len() > 0,
    ensures
        tied_with(s, y) == if tied(s.last(), y) {
            tied_with(s.drop_last(), y).push(s.last())
        } else {
            tied_with(s.drop_last(), y)
        },
{
    reveal(Seq::filter);
}

/// An entry found among those tied with `y` stands in the sequence itself.
proof fn lemma_tied_with_members(s: Seq<Item>, y: Item, x: Item)
    requires
        tied_with(s, y).contains(x),
    ensures
        s.contains(x),
    decreases s.len(),
{
    reveal(Seq::filter);
    if s.len() > 0 {
        lemma_tied_with_last(s, y);
        let found = choose|i: int| 0 <= i < tied_with(s, y).len() && tied_with(s, y)[i] == x;
        if tied(s.last(), y) && found == tied_with(s, y).len() - 1 {
            assert(s[s.len() - 1] == x);
        } else {
            assert(tied_with(s.drop_last(), y)[found] == x);
            lemma_tied_with_members(s.drop_last(), y, x);
            let k = choose|k: int| 0 <= k < s.drop_last().len() && s.drop_last()[k] == x;
            assert(s[k] == x);
        }
    }
}

/// Two ordered sequences in which the same entries are tied with one
/// another, in the same order, are one and the same sequence.
pub proof fn lemma_ordered_and_stable_is_unique(t: Seq<Item>, c: Seq<Item>)
    requires
        ordered(t),
        ordered(c),
        forall|y: Item| tied_with(t, y) == tied_with(c, y),
    ensures
        t == c,
    decreases t.len() + c.len(),
{
    if t.len() == 0 && c.len() == 0 {
        assert(t =~= c);
    } else {
        // both have a last entry, because whichever has one shows it to the other
        let lead = if t.len() > 0 {
            t.last()
        } else {
            c.last()
        };
        crate::order::lemma_tied_equivalence(lead, lead, lead);
        if t.len() > 0 {
            lemma_tied_with_last(t, lead);
        } else {
            lemma_tied_with_last(c, lead);
        }
        assert(tied_with(t, lead).len() > 0 && tied_with(c, lead).len() > 0);
        assert(t.len() > 0) by {
            reveal(Seq::filter);
        }
        assert(c.len() > 0) by {
            reveal(Seq::filter);
        }
        let y = t.last();
        let z = c.last();
        crate::order::lemma_tied_equivalence(y, z, y);
        crate::order::lemma_tied_equivalence(z, y, z);
        lemma_tied_with_last(t, y);
        lemma_tied_with_last(c, z);
        // each last entry stands somewhere in the other sequence
        assert(tied_with(c, y).contains(y)) by {
            assert(tied_with(t, y)[tied_with(t, y).len() - 1] == y);
        }
        lemma_tied_with_members(c, y, y);
        assert(tied_with(t, z).contains(z)) by {
            assert(tied_with(c, z)[tied_with(c, z).len() - 1] == z);
        }
        lemma_tied_with_members(t, z, z);
        let in_c = choose|i: int| 0 <= i < c.len() && c[i] == y;
        let in_t = choose|i: int| 0 <= i < t.len() && t[i] == z;
        assert(!precedes(z, y)) by {
            if in_c < c.len() - 1 {
                assert(!precedes(c[c.len() - 1], c[in_c]));
            }
        }
        assert(!precedes(y, z)) by {
            if in_t < t.len() - 1 {
                assert(!precedes(t[t.len() - 1], t[in_t]));
            }
        }
        assert(tied(z, y));
        lemma_tied_with_last(c, y);
        assert(y == z) by {
            assert(tied_with(t, y).last() == y);
            assert(tied_with(c, y).last() == z);
        }
        let t0 = t.drop_last();
        let c0 = c.drop_last();
        assert(ordered(t0)) by {
            assert forall|i: int, j: int| 0 <= i < j < t0.len() implies !precedes(
                #[trigger] t0[j],
                #[trigger] t0[i],
            ) by {
                assert(t0[j] == t[j] && t0[i] == t[i]);
            }
        }
        assert(ordered(c0)) by {
            assert forall|i: int, j: int| 0 <= i < j < c0.len() implies !precedes(
                #[trigger] c0[j],
                #[trigger] c0[i],
            ) by {
                assert(c0[j] == c[j] && c0[i] == c[i]);
            }
        }
        assert forall|w: Item| tied_with(t0, w) == tied_with(c0, w) by {
            lemma_tied_with_last(t, w);
            lemma_tied_with_last(c, w);
            assert(tied_with(t, w) == tied_with(c, w));
            if tied(y, w) {
                assert(tied_with(t0, w).push(y).drop_last() =~= tied_with(t0, w));
                assert(tied_with(c0, w).push(y).drop_last() =~= tied_with(c0, w));
            }
        }
        lemma_ordered_and_stable_is_unique(t0, c0);
        assert(t =~= t0.push(y));
        assert(c =~= c0.push(z));
    }
}

/// The canonical order is the only arrangement that is ordered and keeps
/// tied entries in the order they had.
pub proof fn lemma_canonical_order_is_unique(s: Seq<Item>, t: Seq<Item>)
    requires
        ordered(t),
        forall|y: Item| tied_with(t, y) == tied_with(s, y),
    ensures
        t == canonical_order(s),
{
    lemma_canonical_order_is_ordered(s);
    assert forall|y: Item| tied_with(t, y) == tied_with(canonical_order(s), y) by {
        lemma_canonical_order_stable(s, y);
    }
    lemma_ordered_and_stable_is_unique(t, canonical_order(s));
}

/// Sorts the entries into their canonical order: viewable entries latest
/// first, then scheduled entries latest first, then entries without a time
/// in the order they had, then blocked entries latest first. Entries that
/// are tied keep the order they had.
pub fn sort_items(items: &mut Vec<Item>)
    ensures
        final(items)@ == canonical_order(old(items)@),
        final(items)@.len() == old(items)@.len(),
        final(items)@.to_multiset() == old(items)@.to_multiset(),
        ordered(final(items)@),
{
    let n = items.len();
    let mut i: usize = 0;
    while i < n
        invariant
            i <= n,
            items.len() == n,
            old(items)@.len() == n,
            items@.subrange(0, i as int) == canonical_order(old(items)@.subrange(0, i as int)),
            items@.subrange(i as int, n as int) == old(items)@.subrange(i as int, n as int),
        decreases n - i,
    {
        let ghost before = items@;
        let ghost placed = items@.subrange(0, i as int);
        let x = items.remove(i);
        assert(x == old(items)@[i as int]) by {
            assert(before.subrange(i as int, n as int)[0] == old(items)@.subrange(
                i as int,
                n as int,
            )[0]);
        }
        let mut p = i;
        while p > 0 && comes_before(&x, &items[p - 1])
            invariant
                p <= i,
                i < n,
                items.len() == n - 1,
                items@ == before.remove(i as int),
                forall|k: int| p <= k < i ==> precedes(x, #[trigger] items@[k]),
            decreases p,
        {
            p -= 1;
        }
        items.insert(p, x);
        proof {
            assert(before.remove(i as int).subrange(0, i as int) =~= placed);
            lemma_insert_position(placed, x, p as int);
            assert(items@.subrange(0, i + 1) =~= placed.insert(p as int, x));
            assert(old(items)@.subrange(0, i + 1).drop_last() =~= old(items)@.subrange(
                0,
                i as int,
            ));
            assert(items@.subrange(i + 1, n as int) =~= before.subrange(i as int, n as int).subrange(
                1,
                n - i,
            ));
            assert(old(items)@.subrange(i + 1, n as int) =~= old(items)@.subrange(
                i as int,
                n as int,
            ).subrange(1, n - i));
        }
        i += 1;
    }
    proof {
        assert(items@.subrange(0, n as int) =~= items@);
        assert(old(items)@.subrange(0, n as int) =~= old(items)@);
        lemma_canonical_order_permutes(old(items)@);
        lemma_canonical_order_is_ordered(old(items)@);
    }
}

/// If no entry precedes the one right before it, none precedes any entry
/// before it.
proof fn lemma_neighbours_decide(s: Seq<Item>, i: int, j: int)
    requires
        forall|k: int| 1 <= k < s.len() ==> !precedes(#[trigger] s[k], s[k - 1]),
        0 <= i < j < s.len(),
    ensures
        !precedes(s[j], s[i]),
    decreases j - i,
{
    if i + 1 < j {
        lemma_neighbours_decide(s, i, j - 1);
        assert(!precedes(s[j], s[j - 1]));
    }
}

/// True when the entries already stand in their canonical order, so that
/// sorting would move none of them.
pub fn already_ordered(items: &Vec<Item>) -> (yes: bool)
    ensures
        yes == (canonical_order(items@) == items@),
        yes == ordered(items@),
{
    let mut i: usize = 1;
    while i < items.len()
        invariant
            1 <= i,
            forall|k: int| 1 <= k < i && k < items@.len() ==> !precedes(#[trigger] items@[k], items@[k - 1]),
        decreases items.len() - i,
    {
        if comes_before(&items[i], &items[i - 1]) {
            proof {
                lemma_ordered_iff_canonical(items@);
            }
            return false;
        }
        i += 1;
    }
    proof {
        assert forall|a: int, b: int| 0 <= a < b < items@.len() implies !precedes(
            #[trigger] items@[b],
            #[trigger] items@[a],
        ) by {
            lemma_neighbours_decide(items@, a, b);
        }
        lemma_ordered_iff_canonical(items@);
    }
    true
}

} // verus!
