//! Reading and writing times as text, and the offsets of named time zones.
//!
//! The calendar arithmetic is chrono's and the zone data is chrono-tz's.
//! What they compute is named here and not spelled out; the functions that
//! call them say which named value they return.

use crate::item::text_of;
use crate::timestamp::Timestamp;
use chrono::Offset;
use chrono::TimeZone;
use vstd::prelude::*;

verus! {

/// What an RFC 3339 date and time says: the seconds and nanoseconds of the
/// instant and the offset written in the text, or `None` where the text is
/// no such date and time.
pub uninterp spec fn rfc3339_reading(text: Seq<char>) -> Option<(i64, u32, i32)>;

/// The RFC 2822 text of an instant on a clock `offset` seconds ahead of
/// UTC, or `None` where there is none, as for an offset of a day or more,
/// an instant that the calendar cannot hold, or a local year that is not
/// one of 0 to 9999.
pub uninterp spec fn rfc2822_writing(seconds: i64, nanos: u32, offset: i32) -> Option<Seq<char>>;

/// True when `name` names a time zone of the zone database.
pub uninterp spec fn zone_exists(name: Seq<char>) -> bool;

/// The seconds that the clocks of the zone `name` are ahead of UTC at an
/// instant, or `None` where the zone is unknown or the instant is out of
/// the calendar's range.
pub uninterp spec fn zone_offset(name: Seq<char>, seconds: i64, nanos: u32) -> Option<i32>;

/// Calls `chrono::DateTime::parse_from_rfc3339` and takes the result apart
/// with `timestamp`, `timestamp_subsec_nanos` and the offset's
/// `local_minus_utc`. Trusted: the result is what `rfc3339_reading` names,
/// `None` standing for chrono's parse error.
#[verifier::external_body]
pub(crate) fn chrono_parse_rfc3339(text: &str) -> (time: Option<Timestamp>)
    ensures
        match time {
            Some(t) => rfc3339_reading(text@) == Some((t.seconds, t.nanos, t.offset)),
            None => rfc3339_reading(text@) is None,
        },
{
    let moment = chrono::DateTime::parse_from_rfc3339(text).ok()?;
    Some(
        Timestamp {
            seconds: moment.timestamp(),
            nanos: moment.timestamp_subsec_nanos(),
            offset: moment.offset().local_minus_utc(),
        },
    )
}

/// Builds a `chrono::DateTime<FixedOffset>` with `FixedOffset::east_opt`
/// and `TimeZone::timestamp_opt`, and writes it with
/// `DateTime::format_with_items` and the single item `Fixed::RFC2822`, which
/// is the text of `DateTime::to_rfc2822`. Trusted: the result is what
/// `rfc2822_writing` names, `None` standing for a value that cannot be built
/// or written.
#[verifier::external_body]
pub(crate) fn chrono_write_rfc2822(time: &Timestamp) -> (text: Option<String>)
    ensures
        text_of(text) == rfc2822_writing(time.seconds, time.nanos, time.offset),
{
    let clock = chrono::FixedOffset::east_opt(time.offset)?;
    let moment = clock.timestamp_opt(time.seconds, time.nanos).single()?;
    let items = [chrono::format::Item::Fixed(chrono::format::Fixed::RFC2822)];
    let mut text = String::new();
    moment.format_with_items(items.iter()).write_to(&mut text).ok()?;
    Some(text)
}

/// Calls the `FromStr` impl of `chrono_tz::Tz`. Trusted: the result says
/// whether the parse succeeded, which is what `zone_exists` names.
#[verifier::external_body]
pub(crate) fn chrono_tz_knows(name: &str) -> (known: bool)
    ensures
        known == zone_exists(name@),
{
    name.parse::<chrono_tz::Tz>().is_ok()
}

/// Parses the zone with the `FromStr` impl of `chrono_tz::Tz`, builds the
/// instant with `chrono::DateTime::from_timestamp`, and asks the zone for
/// its offset with `TimeZone::offset_from_utc_datetime`. Trusted: the result
/// is what `zone_offset` names, `None` standing for an unknown zone or an
/// instant that cannot be built.
#[verifier::external_body]
pub(crate) fn chrono_tz_offset(name: &str, seconds: i64, nanos: u32) -> (offset: Option<i32>)
    ensures
        offset == zone_offset(name@, seconds, nanos),
{
    let zone = name.parse::<chrono_tz::Tz>().ok()?;
    let moment = chrono::DateTime::from_timestamp(seconds, nanos)?;
    Some(zone.offset_from_utc_datetime(&moment.naive_utc()).fix().local_minus_utc())
}

/// The time that `text` says, shown on the clocks of the zone `zone`.
pub open spec fn local_reading(text: Seq<char>, zone: Seq<char>) -> Option<Timestamp> {
    match rfc3339_reading(text) {
        Some((seconds, nanos, _)) => match zone_offset(zone, seconds, nanos) {
            Some(offset) => Some(Timestamp { seconds, nanos, offset }),
            None => None,
        },
        None => None,
    }
}

/// The RFC 2822 text of a timestamp, if it has one.
pub open spec fn written(time: Timestamp) -> Option<Seq<char>> {
    rfc2822_writing(time.seconds, time.nanos, time.offset)
}

/// The same instant, shown on the clocks of the zone `zone`; `None` where
/// the zone has no offset to give for it.
pub fn in_zone(time: &Timestamp, zone: &str) -> (local: Option<Timestamp>)
    ensures
        local == match zone_offset(zone@, time.seconds, time.nanos) {
            Some(offset) => Some(
                Timestamp { seconds: time.seconds, nanos: time.nanos, offset },
            ),
            None => None,
        },
{
    match chrono_tz_offset(zone, time.seconds, time.nanos) {
        Some(offset) => Some(time.with_offset(offset)),
        None => None,
    }
}

/// Reads an RFC 3339 date and time and shows it on the clocks of `zone`.
pub fn read_in_zone(text: &str, zone: &str) -> (time: Option<Timestamp>)
    ensures
        time == local_reading(text@, zone@),
{
    match chrono_parse_rfc3339(text) {
        Some(read) => in_zone(&read, zone),
        None => None,
    }
}

} // verus!
