//! Round-trip times, and the retransmission timeout that follows from them.

use vstd::prelude::*;

use crate::options::max_rto;
use crate::time::Duration;

verus! {

/// How far two lengths of time are apart, in nanoseconds.
pub open spec fn nanos_apart(a: Duration, b: Duration) -> int {
    if a.nanos > b.nanos {
        a.nanos - b.nanos
    } else {
        b.nanos - a.nanos
    }
}

pub fn duration_absdiff(a: Duration, b: Duration) -> (result: Duration)
    ensures
        result.nanos == nanos_apart(a, b),
        a.nanos == b.nanos + result.nanos || b.nanos == a.nanos + result.nanos,
{
    if a.nanos > b.nanos {
        Duration::from_nanos(a.nanos - b.nanos)
    } else {
        Duration::from_nanos(b.nanos - a.nanos)
    }
}

/// The retransmission timeout, in nanoseconds: the smoothed time and four times the
/// variation, but one second at least, and no more than the maximum.
pub open spec fn timeout_nanos(srtt: Duration, rtt_var: Duration) -> int {
    let sum = srtt.nanos + 4 * rtt_var.nanos;
    if sum < Duration::from_secs(1).nanos {
        Duration::from_secs(1).nanos as int
    } else if sum > max_rto().nanos {
        max_rto().nanos as int
    } else {
        sum
    }
}

fn retransmission_timeout(srtt: Duration, rtt_var: Duration) -> (result: Duration)
    ensures
        result.nanos == timeout_nanos(srtt, rtt_var),
{
    let least = Duration::from_secs(1);
    let most = max_rto();
    if srtt.nanos > most.nanos || rtt_var.nanos > most.nanos {
        return most;
    }
    let sum: u128 = srtt.nanos + 4 * rtt_var.nanos;
    if sum < least.nanos {
        least
    } else if sum > most.nanos {
        most
    } else {
        Duration::from_nanos(sum)
    }
}

/// Timings per https://datatracker.ietf.org/doc/html/rfc6298
#[derive(Debug, Clone, Copy, PartialEq, Eq, Structural)]
pub struct Timings {
    /// Retransmission timeout
    pub rto: Duration,
    /// Smoothed round-trip time
    pub srtt: Duration,
    /// RTT variation
    pub rtt_var: Duration,
}

impl Timings {
    /// The variation after one more sample, in nanoseconds: it moves a quarter of the way.
    pub open spec fn next_rtt_var(self, rtt: Duration) -> int {
        (3 * self.rtt_var.nanos + nanos_apart(self.srtt, rtt)) / 4
    }

    /// The smoothed round-trip time after one more sample, in nanoseconds: it moves
    /// an eighth of the way.
    pub open spec fn next_srtt(self, rtt: Duration) -> int {
        (7 * self.srtt.nanos + rtt.nanos) / 8
    }

    /// The sum from which the timeout is made, in nanoseconds.
    pub open spec fn next_sum(self, rtt: Duration) -> int {
        self.next_srtt(rtt) + 4 * self.next_rtt_var(rtt)
    }

    /// No step of the calculation leads to a longer time than there is. The first
    /// sample can always be taken in.
    pub open spec fn can_update(self, rtt: Duration) -> bool {
        self.srtt.nanos != 0 ==> {
            &&& 3 * self.rtt_var.nanos + nanos_apart(self.srtt, rtt) <= Duration::max_nanos()
            &&& 7 * self.srtt.nanos + rtt.nanos <= Duration::max_nanos()
            &&& self.next_sum(rtt) <= Duration::max_nanos()
        }
    }

    /// The timings after one more sample. The first sample (as long as there is no
    /// smoothed time) sets the smoothed time to itself and the variation to half of it.
    /// Later ones move both. The timeout is made of the two either way.
    pub open spec fn updated(self, rtt: Duration) -> Timings {
        let (srtt, rtt_var) = if self.srtt.nanos == 0 {
            (rtt, Duration { nanos: (rtt.nanos / 2) as u128 })
        } else {
            (
                Duration { nanos: self.next_srtt(rtt) as u128 },
                Duration { nanos: self.next_rtt_var(rtt) as u128 },
            )
        };
        Timings { rto: Duration { nanos: timeout_nanos(srtt, rtt_var) as u128 }, srtt, rtt_var }
    }

    pub fn update_rtt(&mut self, rtt: Duration)
        requires
            old(self).can_update(rtt),
        ensures
            *final(self) == old(self).updated(rtt),
            old(self).srtt.nanos == 0 ==> final(self).srtt == rtt,
            1_000_000_000 <= final(self).rto.nanos <= 120_000_000_000,
            1_000_000_000 <= final(self).srtt.nanos + 4 * final(self).rtt_var.nanos
                <= 120_000_000_000 ==> final(self).rto.nanos == final(self).srtt.nanos + 4
                * final(self).rtt_var.nanos,
    {
        if self.srtt.nanos == 0 {
            self.srtt = rtt;
            self.rtt_var = Duration::from_nanos(rtt.nanos / 2);
        } else {
            let apart = duration_absdiff(self.srtt, rtt);
            self.rtt_var = Duration::from_nanos((3 * self.rtt_var.nanos + apart.nanos) / 4);
            self.srtt = Duration::from_nanos((7 * self.srtt.nanos + rtt.nanos) / 8);
        }
        self.rto = retransmission_timeout(self.srtt, self.rtt_var);
    }
}

impl Default for Timings {
    fn default() -> (result: Self)
        ensures
            result == (Timings {
                rto: Duration::from_secs(1),
                srtt: Duration::zero(),
                rtt_var: Duration::zero(),
            }),
    {
        Self { rto: Duration::from_secs(1), srtt: Duration::zero(), rtt_var: Duration::zero() }
    }
}

/// The difference of two lengths of time does not depend on which comes first, and
/// is zero only between equal ones.
pub proof fn law_absdiff_is_symmetric(a: Duration, b: Duration)
    ensures
        nanos_apart(a, b) == nanos_apart(b, a),
        nanos_apart(a, b) == 0 <==> a == b,
        a.nanos <= b.nanos ==> a.nanos + nanos_apart(a, b) == b.nanos,
{
}

/// Smoothing: the smoothed time stays between its old value and the sample, and
/// the variation between its old value and the distance to the sample (both but for
/// the fraction that rounding down takes).
pub proof fn law_rtt_smoothing_stays_between(timings: Timings, rtt: Duration)
    ensures
        timings.srtt.nanos <= rtt.nanos ==> timings.srtt.nanos <= timings.next_srtt(rtt)
            <= rtt.nanos,
        rtt.nanos <= timings.srtt.nanos ==> rtt.nanos <= timings.next_srtt(rtt)
            <= timings.srtt.nanos,
        timings.rtt_var.nanos <= nanos_apart(timings.srtt, rtt) ==> timings.rtt_var.nanos
            <= timings.next_rtt_var(rtt) <= nanos_apart(timings.srtt, rtt),
        nanos_apart(timings.srtt, rtt) <= timings.rtt_var.nanos ==> nanos_apart(timings.srtt, rtt)
            <= timings.next_rtt_var(rtt) <= timings.rtt_var.nanos,
{
}

/// The first sample becomes the smoothed time, and half of it the variation. A later one
/// counts for an eighth of the smoothed time, and its distance from that for a quarter of
/// the variation, each rounded down to a nanosecond.
pub proof fn law_rtt_samples_count(timings: Timings, rtt: Duration)
    requires
        timings.can_update(rtt),
    ensures
        ({
            let next = timings.updated(rtt);
            if timings.srtt.nanos == 0 {
                &&& next.srtt == rtt
                &&& rtt.nanos - 1 <= 2 * next.rtt_var.nanos <= rtt.nanos
            } else {
                &&& 0 <= 7 * timings.srtt.nanos + rtt.nanos - 8 * next.srtt.nanos < 8
                &&& timings.srtt.nanos <= rtt.nanos ==> 0 <= 3 * timings.rtt_var.nanos + (rtt.nanos
                    - timings.srtt.nanos) - 4 * next.rtt_var.nanos < 4
                &&& timings.srtt.nanos >= rtt.nanos ==> 0 <= 3 * timings.rtt_var.nanos + (
                timings.srtt.nanos - rtt.nanos) - 4 * next.rtt_var.nanos < 4
            }
        }),
{
}

/// Equal samples leave the smoothed time where it is, and let the variation shrink by a
/// quarter, so that the timeout comes down to the round-trip time.
pub proof fn law_rtt_equal_samples_settle(timings: Timings)
    requires
        timings.srtt.nanos > 0,
        timings.can_update(timings.srtt),
    ensures
        timings.updated(timings.srtt).srtt == timings.srtt,
        4 * timings.updated(timings.srtt).rtt_var.nanos <= 3 * timings.rtt_var.nanos,
{
}

/// The timeout is the smoothed time and four times the variation, where that is between
/// one second and two minutes. Where it is less or more, the timeout is that bound.
pub proof fn law_rtt_timeout_is_the_bounded_sum(timings: Timings, rtt: Duration)
    requires
        timings.can_update(rtt),
    ensures
        ({
            let next = timings.updated(rtt);
            let sum = next.srtt.nanos + 4 * next.rtt_var.nanos;
            &&& sum <= 1_000_000_000 ==> next.rto.nanos == 1_000_000_000
            &&& 1_000_000_000 <= sum <= 120_000_000_000 ==> next.rto.nanos == sum
            &&& sum >= 120_000_000_000 ==> next.rto.nanos == 120_000_000_000
        }),
{
}

/// What keeps an update from being made is only a step of the calculation that leads
/// beyond the longest time there is. The first sample can always be taken in.
pub proof fn law_rtt_updates_need_room(timings: Timings, rtt: Duration)
    ensures
        timings.srtt.nanos == 0 ==> timings.can_update(rtt),
        timings.srtt.nanos != 0 && !timings.can_update(rtt) ==> {
            ||| 3 * timings.rtt_var.nanos + nanos_apart(timings.srtt, rtt)
                > u64::MAX * 1_000_000_000 + 999_999_999
            ||| 7 * timings.srtt.nanos + rtt.nanos > u64::MAX * 1_000_000_000 + 999_999_999
            ||| timings.next_srtt(rtt) + 4 * timings.next_rtt_var(rtt) > u64::MAX * 1_000_000_000
                + 999_999_999
        },
{
}

/// The timeout is at least one second and at most the maximum, and grows with the
/// smoothed time and with the variation.
pub proof fn law_rtt_timeout_is_bounded_and_grows(
    srtt: Duration,
    rtt_var: Duration,
    longer_srtt: Duration,
    longer_rtt_var: Duration,
)
    requires
        srtt.nanos <= longer_srtt.nanos,
        rtt_var.nanos <= longer_rtt_var.nanos,
    ensures
        Duration::from_secs(1).nanos <= timeout_nanos(srtt, rtt_var) <= max_rto().nanos,
        timeout_nanos(srtt, rtt_var) <= timeout_nanos(longer_srtt, longer_rtt_var),
{
}

/// As long as no sample is longer than an eighth of the longest time there is, every
/// update can be made: the timings keep below that bound themselves.
pub proof fn law_rtt_updates_do_not_overflow(timings: Timings, rtt: Duration)
    requires
        8 * timings.srtt.nanos <= Duration::max_nanos(),
        8 * timings.rtt_var.nanos <= Duration::max_nanos(),
        8 * rtt.nanos <= Duration::max_nanos(),
    ensures
        timings.can_update(rtt),
        8 * timings.updated(rtt).srtt.nanos <= Duration::max_nanos(),
        8 * timings.updated(rtt).rtt_var.nanos <= Duration::max_nanos(),
{
}

} // verus!
