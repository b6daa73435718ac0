//! The order in which entries are shown.
//!
//! Entries fall into four groups, shown in this sequence: viewable entries,
//! entries that are only scheduled, entries without any usable time, and
//! entries that are available but blocked. Inside a group the later time
//! comes first; entries without any usable time have nothing to tell them
//! apart, so none of them precedes another.

use crate::item::Item;
use crate::item::ItemProperties;
use std::cmp::Ordering;
use vstd::prelude::*;

verus! {

/// The group an entry is shown in, counted from the front.
pub open spec fn group(v: Item) -> int {
    if v.is_viewable() {
        0
    } else if v.scheduled_start_time is Some {
        1
    } else if !v.is_available() {
        2
    } else {
        3
    }
}

/// The time that orders an entry inside its group: the viewable time of a
/// viewable entry, else the scheduled start, else the available time.
pub open spec fn group_time(v: Item) -> Option<crate::timestamp::Timestamp> {
    if v.is_viewable() {
        v.viewable_at()
    } else if v.scheduled_start_time is Some {
        v.scheduled_start_time
    } else {
        v.available_at()
    }
}

/// True when `v` has to be shown before `w`: its group comes first, or both
/// are in one group and `v` has the later time.
pub open spec fn precedes(v: Item, w: Item) -> bool {
    group(v) < group(w) || (group(v) == group(w) && group_time(v) is Some && group_time(w) is Some
        && group_time(w)->0.earlier_than(group_time(v)->0))
}

/// True when neither entry has to be shown before the other.
pub open spec fn tied(v: Item, w: Item) -> bool {
    !precedes(v, w) && !precedes(w, v)
}

/// `Less` when `v` precedes `w`, `Greater` when `w` precedes `v`, `Equal`
/// when they are tied.
pub open spec fn display_order(v: Item, w: Item) -> Ordering {
    if precedes(v, w) {
        Ordering::Less
    } else if precedes(w, v) {
        Ordering::Greater
    } else {
        Ordering::Equal
    }
}

/// Compares two entries for display.
pub fn compare(v: &Item, w: &Item) -> (o: Ordering)
    ensures
        o == display_order(*v, *w),
{
    if v.viewable() {
        if w.viewable() {
            // viewable entries, latest first
            w.viewable_time().unwrap().compare(&v.viewable_time().unwrap())
        } else {
            // viewable entries before all others
            Ordering::Less
        }
    } else if w.viewable() {
        Ordering::Greater
    } else if v.scheduled_start_time.is_some() {
        if w.scheduled_start_time.is_some() {
            // scheduled entries, latest first
            w.scheduled_start_time.unwrap().compare(&v.scheduled_start_time.unwrap())
        } else {
            // scheduled entries before unscheduled ones
            Ordering::Less
        }
    } else if w.scheduled_start_time.is_some() {
        Ordering::Greater
    } else if v.available() {
        if w.available() {
            // blocked entries, latest first
            w.available_time().unwrap().compare(&v.available_time().unwrap())
        } else {
            // entries without a time before blocked ones
            Ordering::Greater
        }
    } else if w.available() {
        Ordering::Less
    } else {
        // nothing tells two entries without a time apart
        Ordering::Equal
    }
}

/// True when `v` has to be shown before `w`.
pub fn comes_before(v: &Item, w: &Item) -> (yes: bool)
    ensures
        yes == precedes(*v, *w),
{
    match compare(v, w) {
        Ordering::Less => true,
        _ => false,
    }
}

/// No entry precedes itself, and of two entries at most one precedes the
/// other.
pub proof fn lemma_precedes_asymmetric(v: Item, w: Item)
    ensures
        !precedes(v, v),
        precedes(v, w) ==> !precedes(w, v),
{
}

/// If `u` precedes `v` and `v` precedes `w`, then `u` precedes `w`.
pub proof fn lemma_precedes_transitive(u: Item, v: Item, w: Item)
    requires
        precedes(u, v),
        precedes(v, w),
    ensures
        precedes(u, w),
{
}

/// Being tied is an equivalence: every entry is tied with itself, ties can
/// be read in both directions, and two entries tied with a third are tied
/// with each other.
pub proof fn lemma_tied_equivalence(u: Item, v: Item, w: Item)
    ensures
        tied(u, u),
        tied(u, v) ==> tied(v, u),
        tied(u, v) && tied(v, w) ==> tied(u, w),
{
}

/// Tied entries stand alike towards every third entry.
pub proof fn lemma_tied_entries_order_alike(u: Item, v: Item, w: Item)
    requires
        tied(u, v),
    ensures
        precedes(u, w) == precedes(v, w),
        precedes(w, u) == precedes(w, v),
{
}

/// Comparing in the other direction gives the mirrored answer.
pub proof fn lemma_display_order_mirrored(v: Item, w: Item)
    ensures
        display_order(v, w) == Ordering::Less <==> display_order(w, v) == Ordering::Greater,
        display_order(v, w) == Ordering::Equal <==> display_order(w, v) == Ordering::Equal,
{
}

} // verus!
