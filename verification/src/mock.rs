//! Stand-ins for tests.

use vstd::prelude::*;

verus! {

/// An address that stands for a host.
#[derive(Debug, Clone, Copy, PartialEq, Eq, PartialOrd, Ord, Hash, Structural)]
pub struct RemoteAddr(pub u64);

impl RemoteAddr {
    /// The address with the number in `counter`, which is counted up.
    pub fn new(counter: &mut u64) -> (result: Self)
        ensures
            result == RemoteAddr(*old(counter)),
            *final(counter) == (*old(counter) + 1) % 0x1_0000_0000_0000_0000,
    {
        let result = Self(*counter);
        *counter = counter.wrapping_add(1);
        result
    }
}

} // verus!
