//! The errors that socket calls return.

use vstd::prelude::*;

use crate::event::Cookie;

verus! {

#[derive(Debug, Clone, Copy, PartialEq, Eq, Structural)]
pub enum Error {
    InvalidStateTransition,
    NotConnected,
    ConnectionReset,
    OutputClosed,
    ConnectionClosing,
    ListenClosed,
    TimedOut,
    /// This socket is closed, and the operation is not accepted
    Closed,
    /// This socket is listening, and the operation is not accepted
    Listening,
    EventNotActive,
    /// Not an actual error
    /// Retry the tried call again after the cookie-event occurs.
    /// Other user calls to this socket MUST NOT be done until retry.
    RetryAfter(Cookie),
    /// Not an actual error
    /// Continue execution only after the cookie-event occurs.
    /// Other user calls to this socket MUST NOT be done until the event.
    ContinueAfter(Cookie),
}

} // verus!
