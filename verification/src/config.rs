//! The settings of one run, checked before anything else happens.

use crate::calendar::chrono_tz_knows;
use crate::calendar::zone_exists;
use vstd::prelude::*;

verus! {

/// Why the settings of a run are refused.
#[derive(Clone, Copy, Debug, PartialEq, Eq)]
pub enum ConfigurationError {
    /// The time zone is not one of the zone database.
    InvalidTimezone,
    /// The retention cap is below zero.
    NegativeCap,
}

/// The settings of one run over one collection.
#[derive(Debug)]
pub struct Settings {
    /// Identifier of the collection.
    pub id: String,
    /// Name of the zone in which times are shown.
    pub time_zone: String,
    /// When set, nothing is changed: what would be done is only reported.
    pub dry_run: bool,
    /// When set, the fetched entries are printed.
    pub debug: bool,
}

/// Makes the settings once it is known whether the zone exists.
pub fn settings_for(
    zone_known: bool,
    id: &str,
    time_zone: String,
    dry_run: bool,
    debug: bool,
) -> (outcome: Result<Settings, ConfigurationError>)
    ensures
        match outcome {
            Ok(settings) => {
                &&& zone_known
                &&& settings.id@ == id@
                &&& settings.time_zone@ == time_zone@
                &&& settings.dry_run == dry_run
                &&& settings.debug == debug
            },
            Err(error) => !zone_known && error == ConfigurationError::InvalidTimezone,
        },
{
    if zone_known {
        Ok(Settings { id: id.to_owned(), time_zone, dry_run, debug })
    } else {
        Err(ConfigurationError::InvalidTimezone)
    }
}

/// Makes the settings for working on the collection `id`, showing times in
/// the zone `time_zone`. With `dry_run` nothing is to be changed; with
/// `debug` the fetched entries are to be printed. Fails exactly when
/// `time_zone` names no time zone.
pub fn new(id: &str, time_zone: String, dry_run: bool, debug: bool) -> (outcome: Result<
    Settings,
    ConfigurationError,
>)
    ensures
        match outcome {
            Ok(settings) => {
                &&& zone_exists(time_zone@)
                &&& settings.id@ == id@
                &&& settings.time_zone@ == time_zone@
                &&& settings.dry_run == dry_run
                &&& settings.debug == debug
            },
            Err(error) => !zone_exists(time_zone@) && error == ConfigurationError::InvalidTimezone,
        },
{
    let zone_known = chrono_tz_knows(time_zone.as_str());
    settings_for(zone_known, id, time_zone, dry_run, debug)
}

/// The cap that `value` asks for, as a count.
pub open spec fn cap_of(value: i64) -> nat {
    if value > usize::MAX {
        usize::MAX as nat
    } else {
        value as nat
    }
}

/// Checks a retention cap. A cap below zero is refused. A cap above the
/// largest count that the machine can hold is that largest count: no
/// collection has more entries.
pub fn retention_cap(value: i64) -> (outcome: Result<usize, ConfigurationError>)
    ensures
        value < 0 ==> outcome == Err::<usize, ConfigurationError>(ConfigurationError::NegativeCap),
        value >= 0 ==> outcome == Ok::<usize, ConfigurationError>(cap_of(value) as usize),
{
    if value < 0 {
        Err(ConfigurationError::NegativeCap)
    } else if value as u64 > usize::MAX as u64 {
        Ok(usize::MAX)
    } else {
        Ok(value as usize)
    }
}

} // verus!
