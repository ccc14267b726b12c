//! The two counters that the tray polls: the pasteboard's change count and
//! the wall clock in whole seconds.

use vstd::prelude::*;
use std::time::{Duration, SystemTime, SystemTimeError};

verus! {

#[verifier::external_type_specification]
#[verifier::external_body]
pub struct ExSystemTime(SystemTime);

#[verifier::external_type_specification]
#[verifier::external_body]
pub struct ExSystemTimeError(SystemTimeError);

/// The change count as the tray compares it: 0 where there is no
/// pasteboard; the pasteboard's signed count otherwise, read as unsigned
/// (a negative count wraps around, as `as u64` makes it).
pub open spec fn change_count_value(count: Option<i64>) -> u64 {
    match count {
        None => 0,
        Some(c) => if c >= 0 {
            c as u64
        } else {
            (c + 0x1_0000_0000_0000_0000) as u64
        },
    }
}

/// The change count of the general pasteboard, from what the pasteboard
/// reports: `None` where there is no pasteboard.
pub fn clipboard_change_count(count: Option<i64>) -> (r: u64)
    ensures
        r == change_count_value(count),
{
    match count {
        None => 0,
        Some(c) => {
            let r = c as u64;
            assert(c < 0 ==> r == c + 0x1_0000_0000_0000_0000) by (bit_vector)
                requires
                    r == c as u64,
            ;
            r
        },
    }
}

/// `SystemTime::now`.
#[verifier::external_body]
fn system_time_now() -> SystemTime {
    SystemTime::now()
}

/// `SystemTime::duration_since(UNIX_EPOCH)`: the time elapsed since the
/// epoch, or an error where the clock is set before it.
#[verifier::external_body]
fn duration_since_unix_epoch(t: &SystemTime) -> Result<Duration, SystemTimeError> {
    t.duration_since(std::time::UNIX_EPOCH)
}

/// `Duration::as_secs`: the whole seconds of a duration.
#[verifier::external_body]
fn duration_whole_secs(d: &Duration) -> u64 {
    d.as_secs()
}

/// The seconds shown for the clock: the whole seconds elapsed since the
/// epoch, or 0 where the clock is set before the epoch (`None`).
pub fn secs_since_epoch_or_zero(elapsed: Option<u64>) -> (r: u64)
    ensures
        r == match elapsed {
            Some(secs) => secs,
            None => 0,
        },
{
    match elapsed {
        Some(secs) => secs,
        None => 0,
    }
}

/// Whole seconds since the Unix epoch by the system clock, 0 where the clock
/// is set before the epoch (through `secs_since_epoch_or_zero`). Nothing is
/// stated of the value: it is the time.
pub fn now_secs() -> u64 {
    let now = system_time_now();
    let elapsed = match duration_since_unix_epoch(&now) {
        Ok(d) => Some(duration_whole_secs(&d)),
        Err(_) => None,
    };
    secs_since_epoch_or_zero(elapsed)
}

} // verus!
