//! Entries written out for a reader.

use crate::calendar::chrono_write_rfc2822;
use crate::calendar::written;
use crate::item::text_of;
use crate::item::Item;
use crate::item::ItemProperties;
use crate::timestamp::Timestamp;
use vstd::prelude::*;
use vstd::string::StringExecFns;

verus! {

/// The time that is written out for an entry: the viewable time of a
/// viewable entry, else the available time of a blocked one, else the
/// scheduled start, if there is one.
pub open spec fn shown_time(video: Item) -> Option<Timestamp> {
    if video.is_viewable() {
        video.viewable_at()
    } else if video.is_available() {
        video.available_at()
    } else {
        video.scheduled_start_time
    }
}

/// How an entry came to exist: streamed where a start was ever scheduled,
/// else uploaded.
pub open spec fn origin(video: Item) -> Seq<char> {
    if video.scheduled_start_time is Some {
        "streamed"@
    } else {
        "uploaded"@
    }
}

/// What is said of an entry's time, given the text `when` of the time that
/// is written out for it.
pub open spec fn time_text(video: Item, when: Seq<char>) -> Seq<char> {
    if video.is_viewable() {
        origin(video) + " on "@ + when
    } else if video.is_available() {
        origin(video) + " on "@ + when + " but **blocked**"@
    } else if video.scheduled_start_time is Some {
        "scheduled for "@ + when
    } else {
        "invalid"@
    }
}

/// What is said of an entry's time: `time_text` over the RFC 2822 text of
/// the time that is written out for it, and `None` where that time has no
/// such text.
pub open spec fn time_line(video: Item) -> Option<Seq<char>> {
    match shown_time(video) {
        Some(time) => match written(time) {
            Some(when) => Some(time_text(video, when)),
            None => None,
        },
        None => Some(time_text(video, Seq::empty())),
    }
}

/// The whole line of an entry: its video identifier, a colon, its title,
/// and what is said of its time.
pub open spec fn entry_line(video: Item) -> Option<Seq<char>> {
    match time_line(video) {
        Some(time) => Some(video.video_id@ + ": "@ + video.title@ + " "@ + time),
        None => None,
    }
}

/// Says when an entry was streamed or uploaded, whether it is blocked, or
/// for when it is scheduled, given the text `when` of that time. For an
/// entry without any time the answer is `invalid` and `when` is not used.
pub fn time_with(video: &Item, when: &str) -> (text: String)
    ensures
        text@ == time_text(*video, when@),
{
    let origin = if video.scheduled_start_time.is_some() {
        "streamed"
    } else {
        "uploaded"
    };
    if video.viewable() {
        let mut text = origin.to_owned();
        text.append(" on ");
        text.append(when);
        text
    } else if video.available() {
        let mut text = origin.to_owned();
        text.append(" on ");
        text.append(when);
        text.append(" but **blocked**");
        text
    } else if video.scheduled_start_time.is_some() {
        let mut text = "scheduled for ".to_owned();
        text.append(when);
        text
    } else {
        "invalid".to_owned()
    }
}

/// Says when an entry was streamed or uploaded, whether it is blocked, or
/// for when it is scheduled, with the time as RFC 2822 text. Returns `None`
/// where the time to be written has no such text.
pub fn time(video: &Item) -> (text: Option<String>)
    ensures
        text_of(text) == time_line(*video),
        shown_time(*video) is None ==> text is Some,
{
    let shown = if video.viewable() {
        video.viewable_time()
    } else if video.available() {
        video.available_time()
    } else {
        video.scheduled_start_time
    };
    match shown {
        Some(time) => match chrono_write_rfc2822(&time) {
            Some(when) => Some(time_with(video, when.as_str())),
            None => None,
        },
        None => Some(time_with(video, "")),
    }
}

/// Puts the line of an entry together from what is said of its time.
pub fn describe_with(video: &Item, time: &str) -> (line: String)
    ensures
        line@ == video.video_id@ + ": "@ + video.title@ + " "@ + time@,
{
    let mut line = video.video_id.clone();
    line.append(": ");
    line.append(video.title.as_str());
    line.append(" ");
    line.append(time);
    line
}

/// The line that shows an entry to a reader: `<video id>: <title> <time>`.
/// Returns `None` where the time to be written has no RFC 2822 text.
pub fn describe(video: &Item) -> (line: Option<String>)
    ensures
        text_of(line) == entry_line(*video),
        shown_time(*video) is None ==> line is Some,
{
    match time(video) {
        Some(said) => Some(describe_with(video, said.as_str())),
        None => None,
    }
}

} // verus!
