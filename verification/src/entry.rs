//! Entries as they arrive from the collection's host, before they are
//! checked and their times are read.

use crate::calendar::local_reading;
use crate::calendar::read_in_zone;
use crate::item::text_of;
use crate::item::Item;
use crate::timestamp::Timestamp;
use vstd::prelude::*;

verus! {

/// One entry as fetched: every field may be missing, and times are still
/// RFC 3339 text.
#[derive(Debug)]
pub struct RawEntry {
    pub video_id: Option<String>,
    pub entry_id: Option<String>,
    pub title: Option<String>,
    pub published_at: Option<String>,
    pub scheduled_start_time: Option<String>,
    pub actual_start_time: Option<String>,
    /// The regions in which the video is blocked.
    pub blocked_in: Vec<String>,
}

/// Why a fetched entry cannot be used.
#[derive(Clone, Copy, Debug, PartialEq, Eq)]
pub enum EntryError {
    /// The video identifier, the entry identifier or the title is missing.
    MalformedEntry,
    /// A time is given but cannot be read as a time in the chosen zone.
    UnreadableTime,
}

impl RawEntry {
    /// True when the fields that identify an entry are all there.
    pub open spec fn identified(self) -> bool {
        self.video_id is Some && self.entry_id is Some && self.title is Some
    }
}

/// What a time field says: `Some(None)` where it is missing,
/// `Some(Some(t))` where it reads as `t` in `zone`, `None` where it is
/// given and cannot be read.
pub open spec fn field_reading(field: Option<String>, zone: Seq<char>) -> Option<
    Option<Timestamp>,
> {
    match field {
        None => Some(None),
        Some(text) => match local_reading(text@, zone) {
            Some(time) => Some(Some(time)),
            None => None,
        },
    }
}

/// True when `item` is the entry that `raw` describes, with the three times
/// given.
pub open spec fn assembled(
    raw: RawEntry,
    published_at: Option<Timestamp>,
    scheduled_start_time: Option<Timestamp>,
    actual_start_time: Option<Timestamp>,
    item: Item,
) -> bool {
    &&& raw.identified()
    &&& item.video_id@ == raw.video_id->0@
    &&& item.playlist_item_id@ == raw.entry_id->0@
    &&& item.title@ == raw.title->0@
    &&& item.published_at == published_at
    &&& item.scheduled_start_time == scheduled_start_time
    &&& item.actual_start_time == actual_start_time
    &&& item.blocked == (raw.blocked_in@.len() > 0)
}

/// Builds an entry from a fetched one and its times, already read. The
/// entry is blocked when it is blocked in any region. Fails exactly when an
/// identifying field is missing.
pub fn assemble(
    raw: &RawEntry,
    published_at: Option<Timestamp>,
    scheduled_start_time: Option<Timestamp>,
    actual_start_time: Option<Timestamp>,
) -> (outcome: Result<Item, EntryError>)
    ensures
        match outcome {
            Ok(item) => assembled(
                *raw,
                published_at,
                scheduled_start_time,
                actual_start_time,
                item,
            ),
            Err(error) => error == EntryError::MalformedEntry && !raw.identified(),
        },
{
    match (&raw.video_id, &raw.entry_id, &raw.title) {
        (Some(video_id), Some(entry_id), Some(title)) => {
            let mut item = Item::new(video_id.clone(), entry_id.clone(), title.clone());
            item.published_at = published_at;
            item.scheduled_start_time = scheduled_start_time;
            item.actual_start_time = actual_start_time;
            item.blocked = raw.blocked_in.len() > 0;
            Ok(item)
        },
        _ => Err(EntryError::MalformedEntry),
    }
}

/// Reads a time field in `zone`. A missing field is no error.
pub fn read_field(field: &Option<String>, zone: &str) -> (outcome: Result<
    Option<Timestamp>,
    EntryError,
>)
    ensures
        match outcome {
            Ok(time) => field_reading(*field, zone@) == Some(time),
            Err(error) => error == EntryError::UnreadableTime && field_reading(*field, zone@)
                is None,
        },
        *field is None ==> outcome is Ok,
{
    match field {
        None => Ok(None),
        Some(text) => match read_in_zone(text.as_str(), zone) {
            Some(time) => Ok(Some(time)),
            None => Err(EntryError::UnreadableTime),
        },
    }
}

/// Checks a fetched entry and reads its times in `zone`.
///
/// A missing identifying field is reported first. After that, a time that
/// is given and cannot be read is reported. An entry that gives no times at
/// all and is identified is always accepted.
pub fn item_from_raw(raw: &RawEntry, zone: &str) -> (outcome: Result<Item, EntryError>)
    ensures
        match outcome {
            Ok(item) => {
                &&& field_reading(raw.published_at, zone@) is Some
                &&& field_reading(raw.scheduled_start_time, zone@) is Some
                &&& field_reading(raw.actual_start_time, zone@) is Some
                &&& assembled(
                    *raw,
                    field_reading(raw.published_at, zone@)->0,
                    field_reading(raw.scheduled_start_time, zone@)->0,
                    field_reading(raw.actual_start_time, zone@)->0,
                    item,
                )
            },
            Err(EntryError::MalformedEntry) => !raw.identified(),
            Err(EntryError::UnreadableTime) => raw.identified() && (field_reading(
                raw.published_at,
                zone@,
            ) is None || field_reading(raw.scheduled_start_time, zone@) is None || field_reading(
                raw.actual_start_time,
                zone@,
            ) is None),
        },
        raw.identified() && raw.published_at is None && raw.scheduled_start_time is None
            && raw.actual_start_time is None ==> outcome is Ok,
{
    if raw.video_id.is_none() || raw.entry_id.is_none() || raw.title.is_none() {
        return Err(EntryError::MalformedEntry);
    }
    let published_at = match read_field(&raw.published_at, zone) {
        Ok(time) => time,
        Err(error) => {
            return Err(error);
        },
    };
    let scheduled_start_time = match read_field(&raw.scheduled_start_time, zone) {
        Ok(time) => time,
        Err(error) => {
            return Err(error);
        },
    };
    let actual_start_time = match read_field(&raw.actual_start_time, zone) {
        Ok(time) => time,
        Err(error) => {
            return Err(error);
        },
    };
    assemble(raw, published_at, scheduled_start_time, actual_start_time)
}

/// Checks every fetched entry in turn and stops at the first that cannot
/// be used. The entries come out in the order they were fetched.
pub fn items_from_raw(raw: &Vec<RawEntry>, zone: &str) -> (outcome: Result<Vec<Item>, EntryError>)
    ensures
        match outcome {
            Ok(items) => items@.len() == raw@.len() && forall|i: int|
                0 <= i < raw@.len() ==> usable(#[trigger] raw@[i], zone@) && assembled(
                    raw@[i],
                    field_reading(raw@[i].published_at, zone@)->0,
                    field_reading(raw@[i].scheduled_start_time, zone@)->0,
                    field_reading(raw@[i].actual_start_time, zone@)->0,
                    items@[i],
                ),
            Err(error) => exists|i: int|
                0 <= i < raw@.len() && first_fault(#[trigger] raw@[i], zone@) == Some(error)
                    && forall|k: int| 0 <= k < i ==> usable(#[trigger] raw@[k], zone@),
        },
{
    let mut items: Vec<Item> = Vec::new();
    let mut i: usize = 0;
    while i < raw.len()
        invariant
            i <= raw.len(),
            items@.len() == i,
            forall|k: int|
                0 <= k < i ==> usable(#[trigger] raw@[k], zone@) && assembled(
                    raw@[k],
                    field_reading(raw@[k].published_at, zone@)->0,
                    field_reading(raw@[k].scheduled_start_time, zone@)->0,
                    field_reading(raw@[k].actual_start_time, zone@)->0,
                    items@[k],
                ),
        decreases raw.len() - i,
    {
        match item_from_raw(&raw[i], zone) {
            Ok(item) => {
                items.push(item);
            },
            Err(error) => {
                assert(first_fault(raw@[i as int], zone@) == Some(error));
                return Err(error);
            },
        }
        i += 1;
    }
    Ok(items)
}

/// What is wrong with a fetched entry, if anything is: a missing
/// identifying field, else a time that cannot be read.
pub open spec fn first_fault(raw: RawEntry, zone: Seq<char>) -> Option<EntryError> {
    if !raw.identified() {
        Some(EntryError::MalformedEntry)
    } else if field_reading(raw.published_at, zone) is None || field_reading(
        raw.scheduled_start_time,
        zone,
    ) is None || field_reading(raw.actual_start_time, zone) is None {
        Some(EntryError::UnreadableTime)
    } else {
        None
    }
}

/// True when nothing is wrong with a fetched entry.
pub open spec fn usable(raw: RawEntry, zone: Seq<char>) -> bool {
    first_fault(raw, zone) is None
}

} // verus!
