//! Wall-clock instants and the time between them.

use vstd::prelude::*;
use crate::wire::Timestamp;

verus! {

/// A span of time, as whole seconds and the nanoseconds beyond them.
#[derive(Clone, Copy, Debug, PartialEq, Eq, Structural)]
pub struct Elapsed {
    pub secs: u64,
    pub nanos: u32,
}

impl Elapsed {
    /// The sub-second part is below one second.
    pub open spec fn wf(self) -> bool {
        self.nanos < 1_000_000_000
    }

    /// The span in nanoseconds.
    pub open spec fn total_nanos(self) -> int {
        self.secs * 1_000_000_000 + self.nanos
    }

    /// The span in whole microseconds, as `Duration::as_micros` counts them.
    pub open spec fn spec_as_micros(self) -> int {
        self.secs * 1_000_000 + self.nanos / 1000
    }

    /// The span in whole microseconds.
    pub fn as_micros(&self) -> (r: u128)
        ensures
            r == self.spec_as_micros(),
    {
        (self.secs as u128) * 1_000_000 + (self.nanos / 1000) as u128
    }
}

#[verifier::external_type_specification]
#[verifier::external_body]
pub struct ExSystemTime(std::time::SystemTime);

#[verifier::external_type_specification]
#[verifier::external_body]
pub struct ExSystemTimeError(std::time::SystemTimeError);

/// `SystemTime::now()`. What the clock reads is not stated.
#[verifier::external_body]
fn system_time_now() -> (t: std::time::SystemTime) {
    std::time::SystemTime::now()
}

/// `SystemTime::duration_since(UNIX_EPOCH)`: the time since the epoch, or an
/// error when `t` comes before it. Which of the two comes is not stated.
#[verifier::external_body]
fn duration_since_epoch(t: &std::time::SystemTime) -> (r: Result<core::time::Duration, std::time::SystemTimeError>) {
    t.duration_since(std::time::UNIX_EPOCH)
}

/// `Duration::as_secs`: the whole seconds of `d`. Their number is not stated.
#[verifier::external_body]
fn duration_as_secs(d: &core::time::Duration) -> (secs: u64) {
    d.as_secs()
}

/// `Duration::subsec_nanos`: the nanoseconds beyond the whole seconds of `d`,
/// which the documentation says are below one billion.
#[verifier::external_body]
fn duration_subsec_nanos(d: &core::time::Duration) -> (nanos: u32)
    ensures
        nanos < 1_000_000_000,
{
    d.subsec_nanos()
}

/// The current wall-clock time as seconds and nanoseconds since the Unix
/// epoch; `None` when the clock reads a time before the epoch.
pub(crate) fn clock_now() -> (r: Option<Timestamp>)
    ensures
        r matches Some(t) ==> t.wf(),
{
    let now = system_time_now();
    match duration_since_epoch(&now) {
        Ok(d) => Some(Timestamp { secs: duration_as_secs(&d), nanos: duration_subsec_nanos(&d) }),
        Err(_) => None,
    }
}

impl Timestamp {
    /// Whether this instant comes strictly before `other`.
    pub open spec fn before(self, other: Timestamp) -> bool {
        self.total_nanos() < other.total_nanos()
    }

    /// The time from `earlier` to this instant; `None` when `earlier` comes
    /// later.
    pub fn duration_since(&self, earlier: &Timestamp) -> (r: Option<Elapsed>)
        requires
            self.wf(),
            earlier.wf(),
        ensures
            r is Some <==> !self.before(*earlier),
            r matches Some(e) ==> e.wf() && e.total_nanos() == self.total_nanos()
                - earlier.total_nanos(),
    {
        if self.secs > earlier.secs || (self.secs == earlier.secs && self.nanos >= earlier.nanos) {
            if self.nanos >= earlier.nanos {
                Some(Elapsed { secs: self.secs - earlier.secs, nanos: self.nanos - earlier.nanos })
            } else {
                Some(
                    Elapsed {
                        secs: self.secs - earlier.secs - 1,
                        nanos: self.nanos + 1_000_000_000 - earlier.nanos,
                    },
                )
            }
        } else {
            None
        }
    }
}

} // verus!
