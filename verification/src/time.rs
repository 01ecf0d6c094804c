//! Lengths of time.

use vstd::prelude::*;

verus! {

/// A length of time, in whole nanoseconds.
#[derive(Debug, Clone, Copy, PartialEq, Eq, PartialOrd, Ord, Hash, Structural)]
pub struct Duration {
    pub nanos: u128,
}

impl Duration {
    /// The longest length of time that calculations may lead to, in nanoseconds:
    /// all that a 64-bit number of seconds and a fraction of a second can express.
    pub open spec fn max_nanos() -> int {
        u64::MAX * 1_000_000_000 + 999_999_999
    }

    #[verifier::allow_in_spec]
    pub fn from_nanos(nanos: u128) -> Self
        returns
            (Duration { nanos }),
    {
        Self { nanos }
    }

    #[verifier::allow_in_spec]
    pub fn from_millis(millis: u64) -> Self
        returns
            (Duration { nanos: (millis * 1_000_000) as u128 }),
    {
        Self { nanos: millis as u128 * 1_000_000 }
    }

    #[verifier::allow_in_spec]
    pub fn from_secs(secs: u64) -> Self
        returns
            (Duration { nanos: (secs * 1_000_000_000) as u128 }),
    {
        Self { nanos: secs as u128 * 1_000_000_000 }
    }

    #[verifier::allow_in_spec]
    pub fn zero() -> Self
        returns
            (Duration { nanos: 0 }),
    {
        Self { nanos: 0 }
    }

    pub fn as_nanos(self) -> (result: u128)
        ensures
            result == self.nanos,
    {
        self.nanos
    }
}

/// Seconds, milliseconds and nanoseconds are of one measure, and the longest length of
/// time is one nanosecond short of the seconds that 64 bits can no longer count.
pub proof fn law_durations_are_of_one_measure(secs: u64, millis: u64)
    ensures
        Duration::from_secs(secs).nanos == secs * 1_000_000_000,
        Duration::from_millis(millis).nanos == millis * 1_000_000,
        millis == secs * 1000 ==> Duration::from_millis(millis) == Duration::from_secs(secs),
        Duration::max_nanos() + 1 == (u64::MAX + 1) * 1_000_000_000,
        Duration::from_secs(secs).nanos <= Duration::max_nanos(),
{
}

} // verus!
