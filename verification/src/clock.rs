//! The wall clock. A telemetry report resolves the current time once
//! and uses it for both the live-state write and the history entry.

use vstd::prelude::*;

verus! {

/// Relies on std's `SystemTime::now` and `duration_since(UNIX_EPOCH)`:
/// whole seconds since the epoch, or zero when the clock stands before
/// it. Nothing is assumed about the value that comes back.
#[verifier::external_body]
fn clock_seconds() -> u64 {
    match std::time::SystemTime::now().duration_since(std::time::UNIX_EPOCH) {
        Ok(d) => d.as_secs(),
        Err(_) => 0,
    }
}

/// The current Unix timestamp in whole seconds, clamped into the
/// signed range the store carries.
pub fn current_timestamp() -> (t: i64)
    ensures
        t >= 0,
{
    let secs = clock_seconds();
    if secs > i64::MAX as u64 {
        i64::MAX
    } else {
        secs as i64
    }
}

} // verus!
