//! The wall clock, read as milliseconds since the custom epoch.
use vstd::prelude::*;
use std::time::{Duration, SystemTime};
use crate::error::IdError;
use crate::layout::CUSTOM_EPOCH_MS;

verus! {

#[verifier::external_type_specification]
#[verifier::external_body]
pub struct ExSystemTime(std::time::SystemTime);

/// Reads the system clock (`SystemTime::now`). Nothing is stated of the
/// result: it is whatever time the clock shows.
#[verifier::external_body]
fn system_now() -> SystemTime {
    SystemTime::now()
}

/// How far `t` lies after the Unix epoch (`SystemTime::duration_since` with
/// `UNIX_EPOCH`): `Ok` with the distance when `t` is not before the epoch,
/// otherwise `Err` with how far it lies before (`SystemTimeError::duration`).
/// Not stated: the distances themselves, as `SystemTime` and `Duration`
/// carry no view here.
#[verifier::external_body]
fn since_unix_epoch(t: &SystemTime) -> Result<Duration, Duration> {
    match t.duration_since(std::time::UNIX_EPOCH) {
        Ok(d) => Ok(d),
        Err(e) => Err(e.duration()),
    }
}

/// The whole milliseconds of a duration (`Duration::as_millis`). Not stated:
/// the number, as `Duration` carries no view here.
#[verifier::external_body]
fn duration_millis(d: &Duration) -> u128 {
    d.as_millis()
}

/// The timestamp that a clock reading gives: `Ok(ms)` is a reading `ms`
/// milliseconds after the Unix epoch, cut to 64 bits; `Err(ms)` one `ms`
/// milliseconds before it. A reading before the custom epoch is a clock skew
/// of the distance to it.
pub open spec fn spec_timestamp_of_reading(reading: Result<u128, u128>) -> Result<u64, IdError> {
    match reading {
        Ok(after) => {
            let ms = after as u64;
            if ms < CUSTOM_EPOCH_MS {
                Err(IdError::ClockSkew { elapsed_ms: (CUSTOM_EPOCH_MS - ms) as u64 })
            } else {
                Ok((ms - CUSTOM_EPOCH_MS) as u64)
            }
        },
        Err(before) => Err(IdError::ClockSkew { elapsed_ms: before as u64 }),
    }
}

/// Turns a clock reading into milliseconds since the custom epoch.
pub fn timestamp_of_reading(reading: Result<u128, u128>) -> (r: Result<u64, IdError>)
    ensures
        r == spec_timestamp_of_reading(reading),
{
    match reading {
        Ok(after) => {
            let ms = after as u64;
            if ms < CUSTOM_EPOCH_MS {
                Err(IdError::ClockSkew { elapsed_ms: CUSTOM_EPOCH_MS - ms })
            } else {
                Ok(ms - CUSTOM_EPOCH_MS)
            }
        },
        Err(before) => Err(IdError::ClockSkew { elapsed_ms: before as u64 }),
    }
}

/// Reads the clock as milliseconds since the custom epoch: the result is what
/// `timestamp_of_reading` gives for the clock's reading, which depends on the
/// clock; so a failure is always a clock skew.
pub fn current_timestamp_ms() -> (r: Result<u64, IdError>)
    ensures
        exists|reading: Result<u128, u128>| r == #[trigger] spec_timestamp_of_reading(reading),
        r matches Err(e) ==> e is ClockSkew,
{
    let now = system_now();
    let reading = match since_unix_epoch(&now) {
        Ok(d) => Ok(duration_millis(&d)),
        Err(d) => Err(duration_millis(&d)),
    };
    timestamp_of_reading(reading)
}

/// One reading of the wall clock, as `current_timestamp_ms` gives it. Its
/// field is private to this module, so that `read_clock_stamp` is the only
/// way to make one: a value held in a stamp was read from the clock.
pub struct ClockStamp {
    ms: Result<u64, IdError>,
}

impl ClockStamp {
    /// What the clock read.
    pub closed spec fn value(&self) -> Result<u64, IdError> {
        self.ms
    }

    /// What the clock read.
    pub fn ms(&self) -> (r: Result<u64, IdError>)
        ensures
            r == self.value(),
    {
        self.ms
    }
}

/// Reads the wall clock and keeps the reading in a stamp.
pub fn read_clock_stamp() -> (s: ClockStamp)
    ensures
        exists|reading: Result<u128, u128>| s.value() == #[trigger] spec_timestamp_of_reading(
            reading,
        ),
{
    ClockStamp { ms: current_timestamp_ms() }
}

/// The point in time `ms` milliseconds after the Unix epoch.
pub uninterp spec fn system_time_at(ms: u64) -> SystemTime;

/// The point in time `ms` milliseconds after the Unix epoch
/// (`UNIX_EPOCH + Duration::from_millis(ms)`), which the result is named by.
/// The bound keeps the sum far inside what `SystemTime` holds on every
/// platform, where the addition cannot panic.
#[verifier::external_body]
pub(crate) fn unix_time_from_millis(ms: u64) -> (r: SystemTime)
    requires
        ms <= CUSTOM_EPOCH_MS + 0x100_0000_0000,
    ensures
        r == system_time_at(ms),
{
    std::time::UNIX_EPOCH + Duration::from_millis(ms)
}

} // verus!
