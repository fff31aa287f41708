//! The clock.

use vstd::prelude::*;

use crate::state::TimePoint;

verus! {

/// Calls `SystemTime::elapsed` on the Unix epoch: the time since then, as the machine's
/// clock has it, in seconds and less than a second more, or nothing where the clock stands
/// before it.
#[verifier::external_body]
fn since_epoch() -> (r: Option<TimePoint>)
    ensures
        r matches Some(t) ==> t.nanos < 1_000_000_000,
{
    match std::time::UNIX_EPOCH.elapsed() {
        Ok(d) => Some(TimePoint { secs: d.as_secs(), nanos: d.subsec_nanos() }),
        Err(_) => None,
    }
}

/// The time that a reading of the clock stands for; the epoch where there is none.
pub fn time_of_reading(reading: Option<TimePoint>) -> (r: TimePoint)
    ensures
        r == (match reading {
            Some(t) => t,
            None => TimePoint { secs: 0, nanos: 0 },
        }),
{
    match reading {
        Some(t) => t,
        None => TimePoint { secs: 0, nanos: 0 },
    }
}

/// The whole seconds of the time that a reading of the clock stands for.
pub fn timestamp_of_reading(reading: Option<TimePoint>) -> (r: u64)
    ensures
        r == (match reading {
            Some(t) => t.secs,
            None => 0,
        }),
{
    time_of_reading(reading).secs
}

/// The present time. Which time it is rests on the machine's clock, so the contract leaves
/// it open.
pub fn current_time() -> (r: TimePoint)
    ensures
        r.nanos < 1_000_000_000,
{
    time_of_reading(since_epoch())
}

/// The present time in whole seconds. Which time it is rests on the machine's clock, so
/// nothing is said of it.
pub fn current_timestamp() -> u64 {
    timestamp_of_reading(since_epoch())
}

} // verus!
