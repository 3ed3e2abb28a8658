//! Wall-clock statistics for a session.

use vstd::prelude::*;

verus! {

/// Relies on `std::time::SystemTime::now` and
/// `SystemTime::duration_since`: a clock reading in milliseconds since
/// the Unix epoch.  Nothing can be promised of a clock's value.
#[verifier::external_body]
fn current_millis() -> u64 {
    match std::time::SystemTime::now().duration_since(std::time::UNIX_EPOCH) {
        Ok(d) => d.as_millis() as u64,
        Err(_) => 0,
    }
}

/// Elapsed time between two clock readings, total: a clock that
/// jumped backwards reads as no time passed.
pub fn millis_between(start: u64, now: u64) -> (r: u64)
    ensures
        r == if now >= start {
            now - start
        } else {
            0
        },
{
    if now >= start {
        now - start
    } else {
        0
    }
}

/// Wall-clock statistics, anchored at the moment of construction.
pub struct Stats {
    start_millis: u64,
}

impl Stats {
    pub closed spec fn spec_start_millis(self) -> u64 {
        self.start_millis
    }

    /// Capture the clock at session start.
    pub fn new() -> (s: Stats) {
        Stats { start_millis: current_millis() }
    }

    /// Milliseconds since this `Stats` was created, by the system
    /// clock; no more can be said of a clock reading than that it is
    /// measured against the recorded start.
    pub fn millis_elapsed(&self) -> (r: u64) {
        let now = current_millis();
        millis_between(self.start_millis, now)
    }
}

} // verus!
