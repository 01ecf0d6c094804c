//! The timers of a connection.

use vstd::prelude::*;
use vstd::std_specs::cmp::PartialOrdSpec;

use crate::state::ConnectionState;
use crate::user_data::UserTime;

verus! {

/// Timings per https://datatracker.ietf.org/doc/html/rfc6298
#[derive(Debug, Copy)]
pub struct Timers<Time: UserTime> {
    pub re_tx: Option<Time>,
    pub timewait: Option<Time>,
    pub usertime: Option<Time>,
}

/// What a connection has to do after its timers were looked at.
#[derive(Debug, Clone, Copy, PartialEq, Eq, Structural)]
pub struct TimerWork {
    /// Set the timeout anew, and send from the retransmit queue
    pub retransmit: bool,
    /// Signal an error to all outstanding calls
    pub user_timeout: bool,
}

/// A timer that is set to `deadline` expires at `time` or has expired before.
pub open spec fn expired<Time: UserTime>(deadline: Option<Time>, time: Time) -> bool {
    deadline matches Some(t) && t.partial_cmp_spec(&time) matches Some(
        core::cmp::Ordering::Less
        | core::cmp::Ordering::Equal,
    )
}

/// All timers off.
pub open spec fn timers_off<Time: UserTime>() -> Timers<Time> {
    Timers { re_tx: None, timewait: None, usertime: None }
}

impl<Time: UserTime> Clone for Timers<Time> {
    fn clone(&self) -> (result: Self)
        ensures
            result == *self,
    {
        *self
    }
}

impl<Time: UserTime> Default for Timers<Time> {
    fn default() -> (result: Self)
        ensures
            result == timers_off::<Time>(),
    {
        Self { re_tx: None, timewait: None, usertime: None }
    }
}

/// Whether a timer that is set to `deadline` has expired.
fn is_expired<Time: UserTime>(deadline: Option<Time>, time: Time) -> (result: bool)
    requires
        Time::obeys_partial_cmp_spec(),
    ensures
        result == expired(deadline, time),
{
    match deadline {
        Some(t) => t <= time,
        None => false,
    }
}

impl<Time: UserTime> Timers<Time> {
    /// The timers after they were looked at: the expired ones are off, and if the
    /// waiting time is over, all are.
    pub open spec fn after_tick(self, time: Time) -> Timers<Time> {
        if expired(self.timewait, time) {
            timers_off()
        } else {
            Timers {
                re_tx: if expired(self.re_tx, time) {
                    None
                } else {
                    self.re_tx
                },
                timewait: self.timewait,
                usertime: if expired(self.usertime, time) {
                    None
                } else {
                    self.usertime
                },
            }
        }
    }

    pub fn clear(&mut self)
        ensures
            *final(self) == timers_off::<Time>(),
            final(self).re_tx is None,
            final(self).timewait is None,
            final(self).usertime is None,
    {
        *self = Self::default();
    }

    /// The retransmission timer has expired: is there anything to send again? Not
    /// after a reset. In the states without such a timer this is not called.
    pub fn on_timer_re_tx(state: ConnectionState) -> (result: bool)
        requires
            state !is TimeWait,
            state !is Closed,
        ensures
            result == (state !is Reset),
    {
        match state {
            ConnectionState::Reset => false,
            _ => true,
        }
    }

    /// The waiting time is over: the connection is closed.
    pub fn on_timer_timewait(&mut self, state: &mut ConnectionState)
        requires
            *old(state) is TimeWait,
        ensures
            *final(self) == timers_off::<Time>(),
            *final(state) == ConnectionState::Closed,
    {
        self.clear();
        *state = ConnectionState::Closed;
    }

    /// To be called whenever a timer expires, or simply periodically
    ///
    /// Timers that have expired are turned off. Of what they are for, the end of the
    /// waiting time is dealt with here: it closes the connection and turns off all
    /// timers. The rest is left to the connection.
    pub fn on_time_tick(&mut self, state: &mut ConnectionState, time: Time) -> (result: TimerWork)
        requires
            Time::obeys_partial_cmp_spec(),
            expired(old(self).re_tx, time) ==> *old(state) !is TimeWait && *old(state) !is Closed,
            expired(old(self).timewait, time) ==> *old(state) is TimeWait,
        ensures
            result.retransmit == (expired(old(self).re_tx, time) && *old(state) !is Reset),
            result.user_timeout == (expired(old(self).usertime, time) && !expired(
                old(self).timewait,
                time,
            )),
            *final(self) == old(self).after_tick(time),
            *final(state) == (if expired(old(self).timewait, time) {
                ConnectionState::Closed
            } else {
                *old(state)
            }),
    {
        let mut work = TimerWork { retransmit: false, user_timeout: false };
        if is_expired(self.re_tx, time) {
            self.re_tx = None;
            work.retransmit = Self::on_timer_re_tx(*state);
        }
        if is_expired(self.timewait, time) {
            self.timewait = None;
            self.on_timer_timewait(state);
        }
        if is_expired(self.usertime, time) {
            self.usertime = None;
            work.user_timeout = true;
        }
        work
    }
}

/// A timer fires once: after the timers were looked at, none is left that has
/// expired, and looking at them again at the same time changes nothing.
pub proof fn law_timers_fire_once<Time: UserTime>(timers: Timers<Time>, time: Time)
    ensures
        !expired(timers.after_tick(time).re_tx, time),
        !expired(timers.after_tick(time).timewait, time),
        !expired(timers.after_tick(time).usertime, time),
        timers.after_tick(time).after_tick(time) == timers.after_tick(time),
{
}

/// A timer has expired from the moment on to which it is set. One that is off never has.
pub proof fn law_timers_expire_at_their_time<Time: UserTime>(deadline: Time, time: Time)
    ensures
        !expired(None::<Time>, time),
        deadline.partial_cmp_spec(&time) == Some(core::cmp::Ordering::Less) ==> expired(
            Some(deadline),
            time,
        ),
        deadline.partial_cmp_spec(&time) == Some(core::cmp::Ordering::Equal) ==> expired(
            Some(deadline),
            time,
        ),
        deadline.partial_cmp_spec(&time) == Some(core::cmp::Ordering::Greater) ==> !expired(
            Some(deadline),
            time,
        ),
        deadline.partial_cmp_spec(&time) is None ==> !expired(Some(deadline), time),
{
}

/// Timers do not meddle with each other: as long as the waiting time is not over, one
/// that has not expired stays as it is, and one that has is off. Once it is over, all
/// are off.
pub proof fn law_timers_are_independent<Time: UserTime>(timers: Timers<Time>, time: Time)
    ensures
        !expired(timers.timewait, time) ==> {
            let after = timers.after_tick(time);
            &&& after.timewait == timers.timewait
            &&& expired(timers.re_tx, time) ==> after.re_tx is None
            &&& !expired(timers.re_tx, time) ==> after.re_tx == timers.re_tx
            &&& expired(timers.usertime, time) ==> after.usertime is None
            &&& !expired(timers.usertime, time) ==> after.usertime == timers.usertime
        },
        expired(timers.timewait, time) ==> {
            let after = timers.after_tick(time);
            after.re_tx is None && after.timewait is None && after.usertime is None
        },
        timers_off::<Time>().re_tx is None,
        timers_off::<Time>().timewait is None,
        timers_off::<Time>().usertime is None,
{
}

/// A tick never sets a timer.
pub proof fn law_ticks_set_no_timer<Time: UserTime>(timers: Timers<Time>, time: Time)
    ensures
        timers.after_tick(time).re_tx is Some ==> timers.after_tick(time).re_tx == timers.re_tx,
        timers.after_tick(time).timewait is Some ==> timers.after_tick(time).timewait
            == timers.timewait,
        timers.after_tick(time).usertime is Some ==> timers.after_tick(time).usertime
            == timers.usertime,
{
}

} // verus!
