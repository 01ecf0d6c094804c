//! Options of a socket, and the constants of the protocol.

use vstd::prelude::*;

use crate::time::Duration;

verus! {

pub const MAX_SEGMENT_SIZE: usize = 512;

pub const SLOW_START_TRESHOLD: u16 = 512;

pub const INITIAL_WINDOW_SIZE: u16 = 0x1000;

/// Two minutes
#[verifier::allow_in_spec]
pub fn max_rto() -> Duration
    returns
        Duration::from_secs(120),
{
    Duration::from_secs(120)
}

/// A fifth of a second
#[verifier::allow_in_spec]
pub fn nagle_delay_default() -> Duration
    returns
        Duration::from_millis(200),
{
    Duration::from_millis(200)
}

/// Two minutes
#[verifier::allow_in_spec]
pub fn max_segment_lifetime() -> Duration
    returns
        Duration::from_secs(120),
{
    Duration::from_secs(120)
}

#[derive(Debug, Clone, Copy, PartialEq, Eq, Structural)]
pub struct SocketOptions {
    /// Set to zero for TCP_NODELAY
    pub nagle_delay: Duration,
}

impl Default for SocketOptions {
    /// Nagle's algorithm is not supported yet: there is no delay.
    fn default() -> (result: Self)
        ensures
            result == (SocketOptions { nagle_delay: Duration::zero() }),
    {
        Self { nagle_delay: Duration::zero() }
    }
}

} // verus!
