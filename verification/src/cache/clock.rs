//! The wall clock, read as whole milliseconds since the Unix epoch.

use std::time::{Duration, SystemTime, UNIX_EPOCH};
use vstd::prelude::*;

verus! {

#[verifier::external_type_specification]
#[verifier::external_body]
pub struct ExSystemTime(SystemTime);

/// `SystemTime::now`: one reading of the system clock. Successive readings
/// may go backwards, so nothing is claimed of the value.
#[verifier::external_body]
fn system_now() -> SystemTime {
    SystemTime::now()
}

/// `SystemTime::duration_since` against `UNIX_EPOCH`: the time elapsed since
/// the epoch, or `None` where the reading lies before it.
#[verifier::external_body]
fn since_unix_epoch(t: &SystemTime) -> Option<Duration> {
    match t.duration_since(UNIX_EPOCH) {
        Ok(elapsed) => Some(elapsed),
        Err(_) => None,
    }
}

/// `Duration::as_millis`: the whole milliseconds that the duration holds.
#[verifier::external_body]
fn whole_millis(d: &Duration) -> u128 {
    d.as_millis()
}

/// The current Unix time in milliseconds.
///
/// A clock that reads before the epoch gives 0. The count is cut to 64 bits,
/// which no clock reaches for some 580 million years.
pub fn current_timestamp_ms() -> u64 {
    let reading = system_now();
    let elapsed_ms = match since_unix_epoch(&reading) {
        Some(elapsed) => Some(whole_millis(&elapsed)),
        None => None,
    };
    timestamp_from(elapsed_ms)
}

/// The timestamp that a reading of the clock gives, the reading being the
/// whole milliseconds elapsed since the epoch, or `None` before the epoch:
/// the count cut to its lower 64 bits, and 0 before the epoch.
pub open spec fn timestamp_of(elapsed_ms: Option<u128>) -> u64 {
    match elapsed_ms {
        Some(ms) => (ms % 0x1_0000_0000_0000_0000) as u64,
        None => 0,
    }
}

/// Turns a reading of the clock into a timestamp; see [`timestamp_of`].
pub fn timestamp_from(elapsed_ms: Option<u128>) -> (now: u64)
    ensures
        now == timestamp_of(elapsed_ms),
{
    match elapsed_ms {
        Some(ms) => (ms % 0x1_0000_0000_0000_0000) as u64,
        None => 0,
    }
}

/// `Duration::as_secs`: the whole seconds that the duration holds.
#[verifier::external_body]
fn whole_secs(d: &Duration) -> u64 {
    d.as_secs()
}

/// `Duration::subsec_nanos`: the nanoseconds that the duration holds beyond
/// its whole seconds, always less than one billion.
#[verifier::external_body]
fn nanos_beyond_secs(d: &Duration) -> (nanos: u32)
    ensures
        nanos < 1_000_000_000,
{
    d.subsec_nanos()
}

/// One reading of the clock: the whole seconds elapsed since the Unix epoch
/// and the nanoseconds beyond them, or `None` where the clock reads before
/// the epoch.
pub fn elapsed_since_epoch() -> (elapsed: Option<(u64, u32)>)
    ensures
        elapsed matches Some(reading) ==> reading.1 < 1_000_000_000,
{
    let reading = system_now();
    match since_unix_epoch(&reading) {
        Some(elapsed) => Some((whole_secs(&elapsed), nanos_beyond_secs(&elapsed))),
        None => None,
    }
}

} // verus!
