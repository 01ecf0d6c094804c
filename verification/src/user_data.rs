//! What the user of the library implements.

use vstd::prelude::*;

use crate::event::Cookie;
use crate::result::Error;
use crate::segment::{SegmentMeta, SegmentView};
use crate::time::Duration;

verus! {

/// A call that the library has made to the user.
pub enum UserCall<Addr, Time> {
    NewSeqn { seqn: u32 },
    Send { dst: Addr, seg: SegmentView },
    Event { cookie: Cookie, result: Result<(), Error> },
    AddTimeout { instant: Time },
}

/// Implemented by the user of the library
pub trait UserData: Sized {
    type Time: UserTime;

    type Addr: Copy + core::hash::Hash + core::fmt::Debug;

    /// The calls made so far, in order. Contracts say through this history which
    /// calls the library makes, and with what. Ordinary Rust never evaluates it, so
    /// an implementation outside of Verus can leave it as it is; one that Verus
    /// checks defines it, or else cannot meet what the methods below promise.
    open spec fn calls(&self) -> Seq<UserCall<Self::Addr, Self::Time>> {
        Seq::empty()
    }

    fn new_seqn(&mut self) -> (result: u32)
        ensures
            final(self).calls() == old(self).calls().push(UserCall::NewSeqn { seqn: result }),
    ;

    fn send(&mut self, dst: Self::Addr, seg: SegmentMeta)
        ensures
            final(self).calls() == old(self).calls().push(UserCall::Send { dst, seg: seg@ }),
    ;

    fn event(&mut self, cookie: Cookie, result: Result<(), Error>)
        ensures
            final(self).calls() == old(self).calls().push(UserCall::Event { cookie, result }),
    ;

    fn add_timeout(&mut self, instant: Self::Time)
        ensures
            final(self).calls() == old(self).calls().push(UserCall::AddTimeout { instant }),
    ;
}

/// A point in time
pub trait UserTime: Copy + Ord {
    fn now() -> Self;

    #[must_use]
    fn add(&self, duration: Duration) -> Self;
}

} // verus!
