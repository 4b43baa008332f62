//! The system clock, read through std. Nothing is promised of what it reads:
//! the library only passes the readings on to verified code that is correct
//! whatever they are.
use std::time::{SystemTime, UNIX_EPOCH};
use std::time::Duration;
use vstd::prelude::*;

verus! {

/// std's wall-clock instant, carried through the library unopened.
#[verifier::external_type_specification]
#[verifier::external_body]
pub struct ExSystemTime(SystemTime);

/// `SystemTime::now`: the current instant. Nothing is stated of it.
#[verifier::external_body]
pub(crate) fn system_now() -> SystemTime {
    SystemTime::now()
}

/// `SystemTime::duration_since(UNIX_EPOCH)`: how long after the Unix epoch
/// `t` lies, or `None` when std reports `t` as earlier than the epoch.
/// Nothing is stated of the duration.
#[verifier::external_body]
pub(crate) fn since_unix_epoch(t: &SystemTime) -> Option<Duration> {
    t.duration_since(UNIX_EPOCH).ok()
}

/// `SystemTime::elapsed`: how long ago `t` was, or `None` when std reports
/// the clock as having gone back past `t`. Nothing is stated of the duration.
#[verifier::external_body]
pub(crate) fn elapsed_since(t: &SystemTime) -> Option<Duration> {
    t.elapsed().ok()
}

/// `Duration::as_secs`: the whole seconds of `d`. Nothing is stated of them.
#[verifier::external_body]
pub(crate) fn whole_secs(d: &Duration) -> u64 {
    d.as_secs()
}

/// `Duration::as_nanos`: the whole nanoseconds of `d`. Nothing is stated of them.
#[verifier::external_body]
pub(crate) fn total_nanos(d: &Duration) -> u128 {
    d.as_nanos()
}

} // verus!
