use stream_inspector::calendar::in_zone;
use stream_inspector::calendar::read_in_zone;
use stream_inspector::config::new;
use stream_inspector::config::retention_cap;
use stream_inspector::config::settings_for;
use stream_inspector::config::ConfigurationError;
use stream_inspector::entry::assemble;
use stream_inspector::entry::item_from_raw;
use stream_inspector::entry::items_from_raw;
use stream_inspector::entry::read_field;
use stream_inspector::entry::EntryError;
use stream_inspector::entry::RawEntry;
use stream_inspector::item::Item;
use stream_inspector::render::describe;
use stream_inspector::render::describe_with;
use stream_inspector::render::time;
use stream_inspector::render::time_with;
use stream_inspector::timestamp::Timestamp;

// 2021-09-30T09:56:01 UTC
const MOMENT: i64 = 1_632_995_761;

fn text(s: &str) -> Option<String> {
    Some(s.to_string())
}

fn raw(name: &str) -> RawEntry {
    RawEntry {
        video_id: text(name),
        entry_id: text(&format!("entry-{}", name)),
        title: text(&format!("video {}", name)),
        published_at: None,
        scheduled_start_time: None,
        actual_start_time: None,
        blocked_in: vec![],
    }
}

fn entry(name: &str) -> Item {
    Item::new(name.to_string(), format!("entry-{}", name), format!("video {}", name))
}

#[test]
fn read_in_zone_reads_the_instant_and_takes_the_zone_offset() {
    let read = read_in_zone("2021-09-30T10:56:01+01:00", "UTC").unwrap();
    assert_eq!(read.seconds, MOMENT);
    assert_eq!(read.nanos, 0);
    assert_eq!(read.offset, 0);

    let read = read_in_zone("2021-09-30T09:56:01.25Z", "Europe/London").unwrap();
    assert_eq!(read.seconds, MOMENT);
    assert_eq!(read.nanos, 250_000_000);
    assert_eq!(read.offset, 3600);

    let read = read_in_zone("2021-01-15T12:00:00Z", "America/New_York").unwrap();
    assert_eq!(read.seconds, 1_610_712_000);
    assert_eq!(read.offset, -18_000);
}

#[test]
fn read_in_zone_refuses_what_is_no_time_or_no_zone() {
    assert_eq!(read_in_zone("yesterday", "UTC"), None);
    assert_eq!(read_in_zone("", "UTC"), None);
    assert_eq!(read_in_zone("2021-09-30", "UTC"), None);
    assert_eq!(read_in_zone("2021-13-30T10:56:01Z", "UTC"), None);
    assert_eq!(read_in_zone("2021-09-30T10:56:01Z", "Mars/Olympus"), None);
    assert_eq!(read_in_zone("2021-09-30T10:56:01Z", ""), None);
}

#[test]
fn in_zone_keeps_the_instant() {
    let utc = Timestamp::new(MOMENT, 7, 0);
    let local = in_zone(&utc, "Europe/London").unwrap();
    assert_eq!(local.seconds, MOMENT);
    assert_eq!(local.nanos, 7);
    assert_eq!(local.offset, 3600);
    let winter = in_zone(&Timestamp::new(1_610_712_000, 0, 3600), "Europe/London").unwrap();
    assert_eq!(winter.offset, 0);
    assert_eq!(in_zone(&utc, "Nowhere"), None);
    assert_eq!(in_zone(&Timestamp::new(i64::MAX, 0, 0), "UTC"), None);
}

#[test]
fn time_of_a_streamed_entry() {
    let mut item = entry("a");
    item.scheduled_start_time = Some(Timestamp::new(MOMENT - 60, 0, 3600));
    item.actual_start_time = Some(Timestamp::new(MOMENT, 0, 3600));
    assert_eq!(
        time(&item),
        text("streamed on Thu, 30 Sep 2021 10:56:01 +0100")
    );
}

#[test]
fn time_of_an_uploaded_entry() {
    let mut item = entry("a");
    item.published_at = Some(Timestamp::new(MOMENT, 0, 0));
    assert_eq!(
        time(&item),
        text("uploaded on Thu, 30 Sep 2021 09:56:01 +0000")
    );
}

#[test]
fn time_of_a_blocked_entry() {
    let mut item = entry("a");
    item.published_at = Some(Timestamp::new(MOMENT - 5, 0, 0));
    item.actual_start_time = Some(Timestamp::new(MOMENT, 0, -18_000));
    item.blocked = true;
    assert_eq!(
        time(&item),
        text("uploaded on Thu, 30 Sep 2021 04:56:01 -0500 but **blocked**")
    );
    item.scheduled_start_time = Some(Timestamp::new(MOMENT - 60, 0, 0));
    assert_eq!(
        time(&item),
        text("streamed on Thu, 30 Sep 2021 04:56:01 -0500 but **blocked**")
    );
}

#[test]
fn time_of_a_scheduled_entry() {
    let mut item = entry("a");
    item.scheduled_start_time = Some(Timestamp::new(MOMENT, 0, 0));
    item.published_at = Some(Timestamp::new(MOMENT - 7200, 0, 0));
    assert_eq!(
        time(&item),
        text("scheduled for Thu, 30 Sep 2021 09:56:01 +0000")
    );
}

#[test]
fn time_of_an_entry_without_times() {
    assert_eq!(time(&entry("a")), text("invalid"));
}

#[test]
fn time_that_cannot_be_written() {
    let mut item = entry("a");
    item.published_at = Some(Timestamp::new(MOMENT, 0, 86_400));
    assert_eq!(time(&item), None);
    item.published_at = Some(Timestamp::new(253_402_300_800, 0, 0));
    assert_eq!(time(&item), None);
    item.published_at = Some(Timestamp::new(253_402_300_799, 0, 0));
    assert_eq!(
        time(&item),
        text("uploaded on Fri, 31 Dec 9999 23:59:59 +0000")
    );
    item.published_at = Some(Timestamp::new(MOMENT, 2_000_000_000, 0));
    assert_eq!(time(&item), None);
    assert_eq!(describe(&item), None);
}

#[test]
fn time_with_uses_the_text_it_is_given() {
    let mut item = entry("a");
    item.published_at = Some(Timestamp::new(MOMENT, 0, 0));
    assert_eq!(time_with(&item, "some day"), "uploaded on some day");
    item.blocked = true;
    assert_eq!(time_with(&item, "some day"), "uploaded on some day but **blocked**");
    let mut planned = entry("b");
    planned.scheduled_start_time = Some(Timestamp::new(MOMENT, 0, 0));
    assert_eq!(time_with(&planned, "some day"), "scheduled for some day");
    assert_eq!(time_with(&entry("c"), "some day"), "invalid");
}

#[test]
fn describe_joins_id_title_and_time() {
    let mut item = entry("v1");
    item.published_at = Some(Timestamp::new(MOMENT, 0, 0));
    assert_eq!(
        describe(&item),
        text("v1: video v1 uploaded on Thu, 30 Sep 2021 09:56:01 +0000")
    );
    assert_eq!(describe(&entry("v2")), text("v2: video v2 invalid"));
    assert_eq!(describe_with(&item, "now"), "v1: video v1 now");
}

#[test]
fn assemble_needs_the_identifying_fields() {
    let when = Some(Timestamp::new(MOMENT, 0, 0));
    let item = assemble(&raw("a"), when, None, None).unwrap();
    assert_eq!(item.video_id, "a");
    assert_eq!(item.playlist_item_id, "entry-a");
    assert_eq!(item.title, "video a");
    assert_eq!(item.published_at, when);
    assert_eq!(item.scheduled_start_time, None);
    assert_eq!(item.actual_start_time, None);
    assert!(!item.blocked);

    let mut no_video = raw("a");
    no_video.video_id = None;
    assert_eq!(assemble(&no_video, when, None, None), Err(EntryError::MalformedEntry));
    let mut no_entry = raw("a");
    no_entry.entry_id = None;
    assert_eq!(assemble(&no_entry, None, None, None), Err(EntryError::MalformedEntry));
    let mut no_title = raw("a");
    no_title.title = None;
    assert_eq!(assemble(&no_title, None, None, None), Err(EntryError::MalformedEntry));
}

#[test]
fn assemble_blocks_an_entry_blocked_anywhere() {
    let mut fetched = raw("a");
    fetched.blocked_in = vec!["DE".to_string()];
    assert!(assemble(&fetched, None, None, None).unwrap().blocked);
    fetched.blocked_in = vec![];
    assert!(!assemble(&fetched, None, None, None).unwrap().blocked);
}

#[test]
fn read_field_missing_is_no_error() {
    assert_eq!(read_field(&None, "UTC"), Ok(None));
    assert_eq!(read_field(&None, "Nowhere"), Ok(None));
    assert_eq!(
        read_field(&text("2021-09-30T09:56:01Z"), "UTC"),
        Ok(Some(Timestamp::new(MOMENT, 0, 0)))
    );
    assert_eq!(read_field(&text("soon"), "UTC"), Err(EntryError::UnreadableTime));
    assert_eq!(
        read_field(&text("2021-09-30T09:56:01Z"), "Nowhere"),
        Err(EntryError::UnreadableTime)
    );
}

#[test]
fn item_from_raw_reads_every_time() {
    let mut fetched = raw("a");
    fetched.published_at = text("2021-09-30T09:00:00Z");
    fetched.scheduled_start_time = text("2021-09-30T10:55:01+01:00");
    fetched.actual_start_time = text("2021-09-30T10:56:01+01:00");
    fetched.blocked_in = vec!["FR".to_string(), "DE".to_string()];
    let item = item_from_raw(&fetched, "Europe/London").unwrap();
    assert_eq!(item.video_id, "a");
    assert_eq!(item.playlist_item_id, "entry-a");
    assert_eq!(item.title, "video a");
    let published = item.published_at.unwrap();
    assert_eq!(published.seconds, MOMENT - 3361);
    assert_eq!(published.offset, 3600);
    let planned = item.scheduled_start_time.unwrap();
    assert_eq!(planned.seconds, MOMENT - 60);
    assert_eq!(planned.offset, 3600);
    let started = item.actual_start_time.unwrap();
    assert_eq!(started.seconds, MOMENT);
    assert_eq!(started.offset, 3600);
    assert!(item.blocked);
}

#[test]
fn item_from_raw_without_times() {
    let item = item_from_raw(&raw("a"), "UTC").unwrap();
    assert_eq!(item, entry("a"));
    let item = item_from_raw(&raw("a"), "Nowhere").unwrap();
    assert_eq!(item, entry("a"));
}

#[test]
fn item_from_raw_reports_a_missing_field_first() {
    let mut fetched = raw("a");
    fetched.title = None;
    fetched.published_at = text("no time");
    assert_eq!(item_from_raw(&fetched, "UTC"), Err(EntryError::MalformedEntry));
    let mut fetched = raw("a");
    fetched.video_id = None;
    assert_eq!(item_from_raw(&fetched, "UTC"), Err(EntryError::MalformedEntry));
    let mut fetched = raw("a");
    fetched.entry_id = None;
    assert_eq!(item_from_raw(&fetched, "UTC"), Err(EntryError::MalformedEntry));
}

#[test]
fn item_from_raw_reports_an_unreadable_time() {
    let mut fetched = raw("a");
    fetched.published_at = text("no time");
    assert_eq!(item_from_raw(&fetched, "UTC"), Err(EntryError::UnreadableTime));
    let mut fetched = raw("a");
    fetched.scheduled_start_time = text("2021-09-30 10:56:01");
    assert_eq!(item_from_raw(&fetched, "UTC"), Err(EntryError::UnreadableTime));
    let mut fetched = raw("a");
    fetched.actual_start_time = text("2021-09-30T10:56:01Z");
    assert_eq!(item_from_raw(&fetched, "Atlantis"), Err(EntryError::UnreadableTime));
}

#[test]
fn items_from_raw_keeps_the_order_and_stops_at_the_first_fault() {
    let mut second = raw("b");
    second.published_at = text("2021-09-30T09:56:01Z");
    let items = items_from_raw(&vec![raw("a"), second, raw("c")], "UTC").unwrap();
    assert_eq!(items.len(), 3);
    assert_eq!(items[0].video_id, "a");
    assert_eq!(items[1].video_id, "b");
    assert_eq!(items[1].published_at, Some(Timestamp::new(MOMENT, 0, 0)));
    assert_eq!(items[2].video_id, "c");

    let mut unreadable = raw("b");
    unreadable.published_at = text("?");
    let mut nameless = raw("c");
    nameless.title = None;
    assert_eq!(
        items_from_raw(&vec![raw("a"), unreadable, nameless], "UTC"),
        Err(EntryError::UnreadableTime)
    );
    let mut nameless = raw("a");
    nameless.title = None;
    assert_eq!(
        items_from_raw(&vec![nameless, raw("b")], "UTC"),
        Err(EntryError::MalformedEntry)
    );
    assert_eq!(items_from_raw(&vec![], "UTC"), Ok(vec![]));
}

#[test]
fn new_accepts_a_known_zone() {
    let settings = new("PL123", "Europe/London".to_string(), true, false).unwrap();
    assert_eq!(settings.id, "PL123");
    assert_eq!(settings.time_zone, "Europe/London");
    assert!(settings.dry_run);
    assert!(!settings.debug);
    let settings = new("PL123", "UTC".to_string(), false, true).unwrap();
    assert!(!settings.dry_run);
    assert!(settings.debug);
}

#[test]
fn new_refuses_an_unknown_zone() {
    assert_eq!(
        new("PL123", "Europe/Atlantis".to_string(), true, false).err(),
        Some(ConfigurationError::InvalidTimezone)
    );
    assert_eq!(
        new("PL123", "".to_string(), true, false).err(),
        Some(ConfigurationError::InvalidTimezone)
    );
    assert_eq!(
        new("PL123", "europe/london".to_string(), true, false).err(),
        Some(ConfigurationError::InvalidTimezone)
    );
}

#[test]
fn settings_for_goes_by_what_it_is_told() {
    let settings = settings_for(true, "PL1", "Atlantis".to_string(), false, false).unwrap();
    assert_eq!(settings.time_zone, "Atlantis");
    assert_eq!(
        settings_for(false, "PL1", "UTC".to_string(), false, false).err(),
        Some(ConfigurationError::InvalidTimezone)
    );
}

#[test]
fn retention_cap_refuses_negative_values() {
    assert_eq!(retention_cap(-1), Err(ConfigurationError::NegativeCap));
    assert_eq!(retention_cap(i64::MIN), Err(ConfigurationError::NegativeCap));
    assert_eq!(retention_cap(0), Ok(0));
    assert_eq!(retention_cap(6), Ok(6));
}
