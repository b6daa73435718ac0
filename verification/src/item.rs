//! Entries of the collection and what their raw fields say about them.

use crate::timestamp::Timestamp;
use vstd::prelude::*;

verus! {

/// One membership record of the collection.
#[derive(Debug, PartialEq)]
pub struct Item {
    /// Identifier of the video the entry points at.
    pub video_id: String,
    /// Identifier of the membership record itself; updates and deletions are
    /// keyed by it.
    pub playlist_item_id: String,
    /// Display title.
    pub title: String,
    /// When a live stream is, or was, announced to start.
    pub scheduled_start_time: Option<Timestamp>,
    /// When a live stream really started.
    pub actual_start_time: Option<Timestamp>,
    /// When an upload was published.
    pub published_at: Option<Timestamp>,
    /// True when a restriction hides the video, whatever its times say.
    pub blocked: bool,
}

/// What the text of an optional string is, as a sequence of characters.
pub open spec fn text_of(s: Option<String>) -> Option<Seq<char>> {
    match s {
        Some(t) => Some(t@),
        None => None,
    }
}

impl Item {
    /// The time from which the video exists to be watched: the actual start
    /// of a stream, else the publication time of an upload that was never
    /// scheduled.
    pub open spec fn available_at(self) -> Option<Timestamp> {
        if self.actual_start_time is Some {
            self.actual_start_time
        } else if self.published_at is Some && self.scheduled_start_time is None {
            self.published_at
        } else {
            None
        }
    }

    /// The time from which the video can really be watched: none while it is
    /// blocked, else `available_at`.
    pub open spec fn viewable_at(self) -> Option<Timestamp> {
        if self.blocked {
            None
        } else {
            self.available_at()
        }
    }

    /// True when the video exists to be watched, blocked or not.
    pub open spec fn is_available(self) -> bool {
        self.available_at() is Some
    }

    /// True when the video can really be watched.
    pub open spec fn is_viewable(self) -> bool {
        self.viewable_at() is Some
    }

    /// Why the entry has to leave the collection on its own account, if it
    /// has to.
    pub open spec fn prune_reason(self) -> Option<Seq<char>> {
        if self.blocked {
            Some("blocked"@)
        } else if self.scheduled_start_time is None && self.published_at is None {
            Some("unscheduled and unpublished"@)
        } else {
            None
        }
    }

    /// An entry with the given identifiers and title, no times, not blocked.
    pub fn new(video_id: String, playlist_item_id: String, title: String) -> (item: Item)
        ensures
            item.video_id == video_id,
            item.playlist_item_id == playlist_item_id,
            item.title == title,
            item.scheduled_start_time is None,
            item.actual_start_time is None,
            item.published_at is None,
            !item.blocked,
    {
        Item {
            video_id,
            playlist_item_id,
            title,
            scheduled_start_time: None,
            actual_start_time: None,
            published_at: None,
            blocked: false,
        }
    }
}

impl Clone for Item {
    fn clone(&self) -> (copy: Item)
        ensures
            copy == *self,
    {
        Item {
            video_id: self.video_id.clone(),
            playlist_item_id: self.playlist_item_id.clone(),
            title: self.title.clone(),
            scheduled_start_time: self.scheduled_start_time,
            actual_start_time: self.actual_start_time,
            published_at: self.published_at,
            blocked: self.blocked,
        }
    }
}

impl Default for Item {
    fn default() -> (item: Item)
        ensures
            item.video_id@.len() == 0,
            item.playlist_item_id@.len() == 0,
            item.title@.len() == 0,
            item.scheduled_start_time is None,
            item.actual_start_time is None,
            item.published_at is None,
            !item.blocked,
    {
        Item::new(String::new(), String::new(), String::new())
    }
}

/// The times and flags derived from an entry's raw fields.
pub trait ItemProperties {
    /// Viewable videos are either streamed or uploaded, but not blocked.
    fn viewable(&self) -> bool;

    /// The time from which the video can be watched, if it can.
    fn viewable_time(&self) -> Option<Timestamp>;

    /// Available videos are either streamed or uploaded and may be blocked.
    fn available(&self) -> bool;

    /// The time from which the video exists to be watched, if it does.
    fn available_time(&self) -> Option<Timestamp>;
}

impl ItemProperties for Item {
    fn viewable(&self) -> (yes: bool)
        ensures
            yes == self.is_viewable(),
    {
        self.viewable_time().is_some()
    }

    fn viewable_time(&self) -> (time: Option<Timestamp>)
        ensures
            time == self.viewable_at(),
            time is Some ==> self.available_at() is Some && !self.blocked,
    {
        if self.blocked {
            None
        } else {
            self.available_time()
        }
    }

    fn available(&self) -> (yes: bool)
        ensures
            yes == self.is_available(),
    {
        self.available_time().is_some()
    }

    fn available_time(&self) -> (time: Option<Timestamp>)
        ensures
            time == self.available_at(),
    {
        if self.actual_start_time.is_some() {
            // streamed videos have an actual start time
            self.actual_start_time
        } else if self.published_at.is_some() && self.scheduled_start_time.is_none() {
            // uploaded videos have a published time, but no actual or scheduled start time
            self.published_at
        } else {
            None
        }
    }
}

/// Entries that can say of themselves that they should leave.
pub trait Pruning {
    /// Returns `None` if the video should stay. If it should leave, returns
    /// the reason as a string.
    fn prune(&self) -> Option<String>;
}

impl Pruning for Item {
    fn prune(&self) -> (reason: Option<String>)
        ensures
            text_of(reason) == self.prune_reason(),
    {
        if self.blocked {
            Some("blocked".to_owned())
        } else if self.scheduled_start_time.is_none() && self.published_at.is_none() {
            Some("unscheduled and unpublished".to_owned())
        } else {
            None
        }
    }
}

/// A viewable entry is available and not blocked.
pub proof fn lemma_viewable_is_available_and_unblocked(item: Item)
    ensures
        item.viewable_at() is Some ==> item.available_at() is Some && !item.blocked,
        item.viewable_at() is Some ==> item.viewable_at() == item.available_at(),
        item.blocked ==> item.viewable_at() is None,
{
}

/// A block decides the reason before anything else is looked at; without a
/// block, an entry with neither a scheduled nor a published time is named
/// as such; every other entry has no reason of its own to leave.
pub proof fn lemma_prune_reasons(item: Item)
    ensures
        item.blocked ==> item.prune_reason() == Some("blocked"@),
        !item.blocked && item.scheduled_start_time is None && item.published_at is None
            ==> item.prune_reason() == Some("unscheduled and unpublished"@),
        !item.blocked && (item.scheduled_start_time is Some || item.published_at is Some)
            ==> item.prune_reason() is None,
{
}

} // verus!
