//! Points in time and the spans between them.

use std::time::{SystemTime, UNIX_EPOCH};
use vstd::prelude::*;

verus! {

/// A point in time, held as its distance from the Unix epoch.
///
/// Its view is that distance in nanoseconds: positive after the epoch,
/// negative before it.
#[derive(Clone, Copy, Debug, PartialEq, Eq, Structural)]
pub struct Timestamp {
    nanos: i128,
}

/// A span of time, in nanoseconds.
#[derive(Clone, Copy, Debug, PartialEq, Eq, Structural)]
pub struct Elapsed {
    /// The length of the span in nanoseconds.
    pub nanos: u128,
}

/// The distance from the epoch, in nanoseconds, of the point that lies
/// `secs` seconds and `nanos` nanoseconds away from it.
pub open spec fn nanos_of(secs: u64, nanos: u32) -> int {
    secs * 1_000_000_000 + nanos
}

impl View for Timestamp {
    type V = int;

    closed spec fn view(&self) -> int {
        self.nanos as int
    }
}

impl Timestamp {
    /// Every timestamp lies within what a clock reading can express: a count
    /// of seconds that fits 64 bits and a count of nanoseconds that fits 32,
    /// on either side of the epoch.
    #[verifier::type_invariant]
    spec fn in_range(self) -> bool {
        -nanos_of(u64::MAX, u32::MAX) <= self.nanos <= nanos_of(u64::MAX, u32::MAX)
    }

    /// The point `secs` seconds and `nanos` nanoseconds after the epoch.
    pub fn after_epoch(secs: u64, nanos: u32) -> (t: Timestamp)
        ensures
            t@ == nanos_of(secs, nanos),
    {
        let whole: i128 = (secs as i128) * 1_000_000_000;
        Timestamp { nanos: whole + (nanos as i128) }
    }

    /// The point `secs` seconds and `nanos` nanoseconds before the epoch.
    pub fn before_epoch(secs: u64, nanos: u32) -> (t: Timestamp)
        ensures
            t@ == -nanos_of(secs, nanos),
    {
        let whole: i128 = (secs as i128) * 1_000_000_000;
        Timestamp { nanos: -(whole + (nanos as i128)) }
    }

    /// Reads the system clock.
    ///
    /// Nothing is known of the reading: the clock may be set to any time, and
    /// may be set back between two readings.
    pub fn now() -> Timestamp {
        match read_system_clock() {
            Ok((secs, nanos)) => Timestamp::after_epoch(secs, nanos),
            Err((secs, nanos)) => Timestamp::before_epoch(secs, nanos),
        }
    }

    /// The time that passed from `earlier` to this point, or `None` if this
    /// point lies before `earlier`.
    pub fn elapsed_since(&self, earlier: &Timestamp) -> (span: Option<Elapsed>)
        ensures
            span == elapsed_between(earlier@, self@),
    {
        proof {
            use_type_invariant(self);
            use_type_invariant(earlier);
        }
        if self.nanos >= earlier.nanos {
            Some(Elapsed { nanos: (self.nanos - earlier.nanos) as u128 })
        } else {
            None
        }
    }
}

/// The span from one point in time to another, both given by their distance
/// from the epoch in nanoseconds: `None` if the second lies before the first.
pub open spec fn elapsed_between(from: int, to: int) -> Option<Elapsed> {
    if from <= to {
        Some(Elapsed { nanos: (to - from) as u128 })
    } else {
        None
    }
}

/// Reads `std::time::SystemTime::now` and gives the reading as its distance
/// from `UNIX_EPOCH` in whole seconds and nanoseconds: `Ok` for a reading at
/// or after the epoch, `Err` for one before it. Nothing is claimed of the
/// numbers.
#[verifier::external_body]
fn read_system_clock() -> (reading: Result<(u64, u32), (u64, u32)>) {
    match SystemTime::now().duration_since(UNIX_EPOCH) {
        Ok(since) => Ok((since.as_secs(), since.subsec_nanos())),
        Err(until) => Err((until.duration().as_secs(), until.duration().subsec_nanos())),
    }
}

} // verus!
