//! What has to be done to the collection so that it stands in its canonical
//! order and holds no entry that should leave.
//!
//! Nothing here touches the collection: the report lists, entry by entry in
//! canonical order, what a caller has to do, and the caller decides whether
//! to do it.

use crate::item::Item;
use crate::prune::decision;
use crate::prune::prune_decisions;
use crate::sort::already_ordered;
use crate::sort::canonical_order;
use crate::sort::sort_items;
use vstd::prelude::*;

verus! {

/// What is to be done with one entry.
#[derive(Debug, PartialEq, Eq)]
pub enum Action {
    /// Leave the entry as it is.
    Keep,
    /// Move the entry to this position, counted from zero.
    Reorder(usize),
    /// Delete the entry, for the reason given.
    Remove(String),
}

/// An `Action` as contracts speak of it.
pub ghost enum ActionView {
    Keep,
    Reorder(nat),
    Remove(Seq<char>),
}

impl View for Action {
    type V = ActionView;

    open spec fn view(&self) -> ActionView {
        match self {
            Action::Keep => ActionView::Keep,
            Action::Reorder(position) => ActionView::Reorder(*position as nat),
            Action::Remove(reason) => ActionView::Remove(reason@),
        }
    }
}

impl Clone for Action {
    fn clone(&self) -> (copy: Action)
        ensures
            copy == *self,
    {
        match self {
            Action::Keep => Action::Keep,
            Action::Reorder(position) => Action::Reorder(*position),
            Action::Remove(reason) => Action::Remove(reason.clone()),
        }
    }
}

/// One line of a report: an entry, named by the identifier of its
/// membership record, and what is to be done with it.
#[derive(Debug, PartialEq, Eq)]
pub struct ReportEntry {
    pub entry_id: String,
    pub action: Action,
}

impl Clone for ReportEntry {
    fn clone(&self) -> (copy: ReportEntry)
        ensures
            copy == *self,
    {
        ReportEntry { entry_id: self.entry_id.clone(), action: self.action.clone() }
    }
}

/// The outcome of one reconciliation.
#[derive(Debug, PartialEq, Eq)]
pub struct Report {
    /// One line per entry, in canonical order.
    pub entries: Vec<ReportEntry>,
    /// True when some line asks for more than keeping.
    pub changed: bool,
    /// True when the collection was observed in its canonical order already.
    pub in_order: bool,
}

/// What is to be done with the entry that stands at `i` in the canonical
/// order of `observed`. With a cap, an entry that the pruning rules send
/// away is removed. Any other entry keeps its place if the collection was
/// observed in canonical order, and else is moved to `i`.
pub open spec fn planned_action(observed: Seq<Item>, cap: Option<usize>, i: int) -> ActionView {
    let canonical = canonical_order(observed);
    let removal = match cap {
        Some(max_retained) => decision(canonical, max_retained as nat, i),
        None => None,
    };
    match removal {
        Some(reason) => ActionView::Remove(reason),
        None => if canonical == observed {
            ActionView::Keep
        } else {
            ActionView::Reorder(i as nat)
        },
    }
}

/// True when some entry of `observed` is to be moved or removed.
pub open spec fn plan_changes(observed: Seq<Item>, cap: Option<usize>) -> bool {
    exists|i: int| 0 <= i < observed.len() && planned_action(observed, cap, i) != ActionView::Keep
}

/// True for the lines that ask for something to be done.
pub open spec fn is_intent(entry: ReportEntry) -> bool {
    !(entry.action is Keep)
}

/// The moves among the lines, or the removals, in the order they stand in.
pub open spec fn selected(entries: Seq<ReportEntry>, moves: bool) -> Seq<ReportEntry> {
    entries.filter(
        |entry: ReportEntry|
            if moves {
                entry.action is Reorder
            } else {
                entry.action is Remove
            },
    )
}

/// The lines that ask for something to be done, in the order they stand in.
pub open spec fn intents_of(entries: Seq<ReportEntry>) -> Seq<ReportEntry> {
    entries.filter(|entry: ReportEntry| is_intent(entry))
}

fn copy_of(items: &Vec<Item>) -> (copy: Vec<Item>)
    ensures
        copy@ == items@,
{
    let mut copy: Vec<Item> = Vec::new();
    let mut i: usize = 0;
    while i < items.len()
        invariant
            i <= items.len(),
            copy@ == items@.take(i as int),
        decreases items.len() - i,
    {
        copy.push(items[i].clone());
        assert(items@.take(i as int).push(items@[i as int]) =~= items@.take(i + 1));
        i += 1;
    }
    assert(items@.take(items@.len() as int) =~= items@);
    copy
}

fn action_for(removal: &Option<String>, in_order: bool, position: usize) -> (action: Action)
    ensures
        action@ == match *removal {
            Some(reason) => ActionView::Remove(reason@),
            None => if in_order {
                ActionView::Keep
            } else {
                ActionView::Reorder(position as nat)
            },
        },
{
    match removal {
        Some(reason) => Action::Remove(reason.clone()),
        None => if in_order {
            Action::Keep
        } else {
            Action::Reorder(position)
        },
    }
}

/// Works out what has to be done to the collection as it was observed.
///
/// Without a cap the collection is only put in order; with `Some(n)` the
/// pruning rules are applied to the canonical order as well, keeping at most
/// `n` viewable entries. The report has one line per entry, in canonical
/// order; `changed` says whether any line is more than `Keep`, and
/// `in_order` whether the collection stood in canonical order as observed.
pub fn reconcile(observed: &Vec<Item>, cap: Option<usize>) -> (report: Report)
    ensures
        report.entries@.len() == observed@.len(),
        forall|i: int|
            0 <= i < observed@.len() ==> {
                &&& (#[trigger] report.entries@[i]).entry_id@ == canonical_order(
                    observed@,
                )[i].playlist_item_id@
                &&& report.entries@[i].action@ == planned_action(observed@, cap, i)
            },
        report.changed == plan_changes(observed@, cap),
        report.changed == (intents_of(report.entries@).len() > 0),
        report.in_order == (canonical_order(observed@) == observed@),
{
    let in_order = already_ordered(observed);
    let mut canonical = copy_of(observed);
    sort_items(&mut canonical);
    let decisions = match cap {
        Some(max_retained) => prune_decisions(&canonical, max_retained),
        None => Vec::new(),
    };
    let mut entries: Vec<ReportEntry> = Vec::new();
    let mut changed = false;
    let mut i: usize = 0;
    while i < canonical.len()
        invariant
            i <= canonical.len(),
            canonical@ == canonical_order(observed@),
            canonical@.len() == observed@.len(),
            in_order == (canonical_order(observed@) == observed@),
            cap is Some ==> decisions@.len() == canonical@.len(),
            cap is Some ==> forall|k: int|
                0 <= k < canonical@.len() ==> crate::item::text_of(#[trigger] decisions@[k])
                    == decision(canonical@, cap->0 as nat, k),
            entries@.len() == i,
            forall|k: int|
                0 <= k < i ==> {
                    &&& (#[trigger] entries@[k]).entry_id@ == canonical@[k].playlist_item_id@
                    &&& entries@[k].action@ == planned_action(observed@, cap, k)
                },
            changed == exists|k: int|
                0 <= k < i && planned_action(observed@, cap, k) != ActionView::Keep,
            changed == (intents_of(entries@).len() > 0),
        decreases canonical.len() - i,
    {
        let none: Option<String> = None;
        let removal = if cap.is_some() {
            &decisions[i]
        } else {
            &none
        };
        let action = action_for(removal, in_order, i);
        let is_keep = match action {
            Action::Keep => true,
            _ => false,
        };
        let ghost seen = changed;
        let ghost listed = entries@;
        if !is_keep {
            changed = true;
        }
        entries.push(ReportEntry { entry_id: canonical[i].playlist_item_id.clone(), action });
        proof {
            let step = i as int;
            reveal(Seq::filter);
            assert(entries@.drop_last() =~= listed);
            assert(entries@[step].action@ == planned_action(observed@, cap, step));
            if changed {
                if seen {
                    let k = choose|k: int|
                        0 <= k < step && planned_action(observed@, cap, k) != ActionView::Keep;
                    assert(0 <= k < step + 1 && planned_action(observed@, cap, k)
                        != ActionView::Keep);
                } else {
                    assert(0 <= step < step + 1 && planned_action(observed@, cap, step)
                        != ActionView::Keep);
                }
            }
        }
        i += 1;
    }
    Report { entries, changed, in_order }
}

impl Report {
    /// The lines that ask for something to be done, in the order of the
    /// report. It is empty exactly when nothing has to be done.
    pub fn intents(&self) -> (list: Vec<ReportEntry>)
        ensures
            list@ == intents_of(self.entries@),
    {
        let mut list: Vec<ReportEntry> = Vec::new();
        let mut i: usize = 0;
        while i < self.entries.len()
            invariant
                i <= self.entries.len(),
                list@ == intents_of(self.entries@.take(i as int)),
            decreases self.entries.len() - i,
        {
            proof {
                reveal(Seq::filter);
                assert(self.entries@.take(i + 1).drop_last() =~= self.entries@.take(i as int));
            }
            let entry = &self.entries[i];
            let is_keep = match entry.action {
                Action::Keep => true,
                _ => false,
            };
            if !is_keep {
                list.push(entry.clone());
            }
            i += 1;
        }
        assert(self.entries@.take(self.entries@.len() as int) =~= self.entries@);
        list
    }

    /// The lines of one kind, in the order of the report: the moves, or the
    /// removals.
    fn lines_of(&self, moves: bool) -> (list: Vec<ReportEntry>)
        ensures
            list@ == selected(self.entries@, moves),
    {
        let mut list: Vec<ReportEntry> = Vec::new();
        let mut i: usize = 0;
        while i < self.entries.len()
            invariant
                i <= self.entries.len(),
                list@ == selected(self.entries@.take(i as int), moves),
            decreases self.entries.len() - i,
        {
            proof {
                reveal(Seq::filter);
                assert(self.entries@.take(i + 1).drop_last() =~= self.entries@.take(i as int));
            }
            let entry = &self.entries[i];
            let wanted = match entry.action {
                Action::Keep => false,
                Action::Reorder(_) => moves,
                Action::Remove(_) => !moves,
            };
            if wanted {
                list.push(entry.clone());
            }
            i += 1;
        }
        assert(self.entries@.take(self.entries@.len() as int) =~= self.entries@);
        list
    }

    /// The lines that a caller is to carry out, in the order in which to
    /// carry them out: none in a dry run; else every move, in the order of
    /// the report, and after the moves every removal, in the order of the
    /// report. A move names a position in the whole canonical order, so the
    /// moves are done while every entry is still there.
    pub fn to_dispatch(&self, dry_run: bool) -> (list: Vec<ReportEntry>)
        ensures
            list@ == if dry_run {
                Seq::<ReportEntry>::empty()
            } else {
                selected(self.entries@, true) + selected(self.entries@, false)
            },
    {
        if dry_run {
            Vec::new()
        } else {
            let mut list = self.lines_of(true);
            let mut removals = self.lines_of(false);
            list.append(&mut removals);
            list
        }
    }
}

/// A collection that already stands in canonical order is never asked to
/// move an entry, whatever the cap.
pub proof fn lemma_canonical_needs_no_reorder(observed: Seq<Item>, cap: Option<usize>, i: int)
    ensures
        !(planned_action(canonical_order(observed), cap, i) is Reorder),
        canonical_order(observed) == observed ==> !(planned_action(observed, cap, i) is Reorder),
{
    crate::sort::lemma_canonical_order_idempotent(observed);
}

/// A collection that stands in canonical order and from which the pruning
/// rules send nothing away is left as it is.
pub proof fn lemma_settled_collection_unchanged(observed: Seq<Item>, max_retained: usize)
    requires
        canonical_order(observed) == observed,
        forall|i: int| 0 <= i < observed.len() ==> decision(observed, max_retained as nat, i) is None,
    ensures
        !plan_changes(observed, Some(max_retained)),
        !plan_changes(observed, None),
{
}

} // verus!
