//! Wall-clock time.

use vstd::prelude::*;

verus! {

/// `SystemTime::now().duration_since(UNIX_EPOCH)` in milliseconds; `None`
/// when the clock reads before the epoch. Nothing is promised of the value:
/// it is whatever the clock reads.
#[verifier::external_body]
fn system_time_ms() -> Option<u128> {
    std::time::SystemTime::now().duration_since(std::time::UNIX_EPOCH).ok().map(|d| d.as_millis())
}

/// The milliseconds a clock reading stands for: truncated to 64 bits, and
/// zero for a reading before the epoch.
pub fn millis_of_reading(reading: Option<u128>) -> (res: u64)
    ensures
        res == match reading {
            Some(ms) => ms as u64,
            None => 0u64,
        },
{
    match reading {
        Some(ms) => ms as u64,
        None => 0,
    }
}

/// Milliseconds since the Unix epoch, truncated to 64 bits; zero when the
/// clock reads before the epoch. Any value can come back: it is whatever
/// the clock reads.
pub fn now_ms() -> u64 {
    millis_of_reading(system_time_ms())
}

} // verus!
