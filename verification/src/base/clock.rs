//! The clock the library reads. Nothing is claimed of the time it reads.
use vstd::prelude::*;
use std::time::{Duration, SystemTime, SystemTimeError};

verus! {

/// `std::time::SystemTime`, carried as an opaque value.
#[verifier::external_type_specification]
#[verifier::external_body]
pub struct ExSystemTime(std::time::SystemTime);

/// `std::time::SystemTimeError`, carried as an opaque value.
#[verifier::external_type_specification]
#[verifier::external_body]
pub struct ExSystemTimeError(std::time::SystemTimeError);

/// `SystemTime::now`: the system clock's reading; nothing is claimed of it.
#[verifier::external_body]
fn system_time_now() -> (t: SystemTime) {
    SystemTime::now()
}

/// `SystemTime::duration_since` the Unix epoch: an error where the reading is before it.
#[verifier::external_body]
fn since_unix_epoch(t: &SystemTime) -> (r: Result<Duration, SystemTimeError>) {
    t.duration_since(std::time::UNIX_EPOCH)
}

/// `Duration::as_millis`.
#[verifier::external_body]
fn duration_as_millis(d: &Duration) -> (r: u128) {
    d.as_millis()
}

/// Milliseconds since the Unix epoch by the system clock; 0 where the clock reads before
/// the epoch, and at most the largest `i64`.
pub fn current_time_ms() -> (t: u64)
    ensures
        t <= i64::MAX,
{
    match since_unix_epoch(&system_time_now()) {
        Ok(d) => {
            let ms = duration_as_millis(&d);
            if ms > 0x7fff_ffff_ffff_ffff {
                0x7fff_ffff_ffff_ffff
            } else {
                ms as u64
            }
        },
        Err(_) => 0,
    }
}

/// The current time in milliseconds since the Unix epoch, as `current_time_ms` reads it.
pub fn now_millis() -> (t: i64)
    ensures
        t >= 0,
{
    current_time_ms() as i64
}

/// The time `delta` milliseconds before `now`, or the earliest `i64` where that is earlier.
pub open spec fn cutoff_of(now: i64, delta: int) -> i64 {
    if now - delta < i64::MIN {
        i64::MIN
    } else {
        (now - delta) as i64
    }
}

/// The time `delta` milliseconds before `now` (see `cutoff_of`).
pub fn cutoff_before(now: i64, delta: i64) -> (c: i64)
    requires
        delta >= 0,
    ensures
        c == cutoff_of(now, delta as int),
{
    if now < i64::MIN + delta {
        i64::MIN
    } else {
        now - delta
    }
}

} // verus!
