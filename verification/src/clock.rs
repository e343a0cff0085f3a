//! The time of day.
use std::time::{Duration, SystemTime, UNIX_EPOCH};

use vstd::prelude::*;

verus! {

/// A reading of the system's clock.
#[verifier::external_type_specification]
#[verifier::external_body]
pub struct ExSystemTime(SystemTime);

/// Reads the clock with `SystemTime::now`. Nothing is said of what it shows.
#[verifier::external_body]
fn read_clock() -> (r: SystemTime) {
    SystemTime::now()
}

/// How long after the start of 1970 a reading of the clock is, by `SystemTime::duration_since`;
/// `None` where it is before. Nothing is said of how long, which rests on the clock.
#[verifier::external_body]
fn since_epoch(t: SystemTime) -> (r: Option<Duration>) {
    t.duration_since(UNIX_EPOCH).ok()
}

/// The whole seconds in a span of time, by `Duration::as_secs`. Nothing is said of how many, which
/// rests on the clock.
#[verifier::external_body]
fn whole_seconds(d: Duration) -> (r: u64) {
    d.as_secs()
}

/// The seconds since the start of 1970, given how many the clock has counted since: none for a
/// clock that is set before, and what is left in 64 bits with a sign for a count that is too large.
pub open spec fn epoch_time(elapsed: Option<u64>) -> int {
    match elapsed {
        None => 0,
        Some(s) => if s <= i64::MAX {
            s as int
        } else {
            s - 0x1_0000_0000_0000_0000
        },
    }
}

/// A count that fits is the time, as it is; one that does not is off by all that 64 bits can hold; and
/// a clock before the start shows the start.
pub proof fn the_count_is_the_time(count: u64)
    ensures
        count <= 0x7fff_ffff_ffff_ffff ==> epoch_time(Some(count)) == count,
        count > 0x7fff_ffff_ffff_ffff ==> count - epoch_time(Some(count)) == u64::MAX + 1,
        epoch_time(None) == 0,
{
}

/// The seconds since the start of 1970, given how many the clock has counted since.
pub fn epoch_seconds(elapsed: Option<u64>) -> (r: i64)
    ensures
        r == epoch_time(elapsed),
{
    match elapsed {
        None => 0,
        Some(s) => {
            let r: i64 = #[verifier::truncate]
            (s as i64);
            assert(r == if s <= 0x7fff_ffff_ffff_ffff {
                s as int
            } else {
                s - 0x1_0000_0000_0000_0000
            }) by (bit_vector)
                requires
                    r == s as i64,
            ;
            r
        },
    }
}

/// Seconds since the start of 1970. What the clock shows is not known here, so nothing more is said
/// of the result than what `epoch_seconds` makes of some count: that holds of every number.
pub fn now() -> (r: i64)
    ensures
        exists|elapsed: Option<u64>| r == #[trigger] epoch_time(elapsed),
{
    let elapsed: Option<u64> = match since_epoch(read_clock()) {
        Some(d) => Some(whole_seconds(d)),
        None => None,
    };
    epoch_seconds(elapsed)
}

} // verus!
