use tcpstate::options::{
    max_rto, max_segment_lifetime, nagle_delay_default, SocketOptions, MAX_SEGMENT_SIZE,
    SLOW_START_TRESHOLD,
};
use tcpstate::rtt::duration_absdiff;
use tcpstate::timers::{TimerWork, Timers};
use tcpstate::{ConnectionState, Duration, Timings, UserTime};

#[derive(Debug, Clone, Copy, PartialEq, Eq, PartialOrd, Ord)]
struct Ticks(u64);

impl UserTime for Ticks {
    fn now() -> Self {
        Ticks(0)
    }

    fn add(&self, duration: Duration) -> Self {
        Ticks(self.0 + (duration.as_nanos() / 1_000_000) as u64)
    }
}

#[test]
fn durations() {
    assert_eq!(Duration::zero().as_nanos(), 0);
    assert_eq!(Duration::from_secs(2).as_nanos(), 2_000_000_000);
    assert_eq!(Duration::from_millis(3).as_nanos(), 3_000_000);
    assert_eq!(Duration::from_nanos(7).as_nanos(), 7);
    assert_eq!(Duration::from_secs(u64::MAX).as_nanos(), u64::MAX as u128 * 1_000_000_000);
    assert_eq!(Ticks::now().add(Duration::from_secs(3)), Ticks(3000));
}

#[test]
fn protocol_constants() {
    assert_eq!(max_rto(), Duration::from_secs(120));
    assert_eq!(max_segment_lifetime(), Duration::from_secs(120));
    assert_eq!(nagle_delay_default(), Duration::from_millis(200));
    assert_eq!(MAX_SEGMENT_SIZE, 512);
    assert_eq!(SLOW_START_TRESHOLD, 512);
    assert_eq!(SocketOptions::default().nagle_delay, Duration::zero());
}

#[test]
fn absdiff_goes_both_ways() {
    let (a, b) = (Duration::from_millis(30), Duration::from_millis(100));
    assert_eq!(duration_absdiff(a, b), Duration::from_millis(70));
    assert_eq!(duration_absdiff(b, a), Duration::from_millis(70));
    assert_eq!(duration_absdiff(a, a), Duration::zero());
}

#[test]
fn first_sample_sets_the_timeout() {
    let mut timings = Timings::default();
    assert_eq!(timings.rto, Duration::from_secs(1));
    timings.update_rtt(Duration::from_millis(100));
    assert_eq!(timings.srtt, Duration::from_millis(100));
    assert_eq!(timings.rtt_var, Duration::from_millis(50));
    // 300 ms, raised to the minimum
    assert_eq!(timings.rto, Duration::from_secs(1));
    let mut timings = Timings::default();
    timings.update_rtt(Duration::from_secs(2));
    assert_eq!(timings.srtt, Duration::from_secs(2));
    assert_eq!(timings.rtt_var, Duration::from_secs(1));
    assert_eq!(timings.rto, Duration::from_secs(6));
}

#[test]
fn equal_samples_shorten_the_timeout() {
    let mut timings = Timings::default();
    timings.update_rtt(Duration::from_secs(2));
    timings.update_rtt(Duration::from_secs(2));
    assert_eq!(timings.srtt, Duration::from_secs(2));
    assert_eq!(timings.rtt_var, Duration::from_millis(750));
    assert_eq!(timings.rto, Duration::from_secs(5));
}

#[test]
fn timeout_stays_within_its_bounds() {
    for secs in [0, 1, 39, 40, 41, 1000, u64::MAX] {
        let mut timings = Timings::default();
        timings.update_rtt(Duration::from_secs(secs));
        let expected = (3 * secs as u128).max(1).min(120) as u64;
        assert_eq!(timings.rto, Duration::from_secs(expected));
    }
    let mut timings = Timings::default();
    timings.update_rtt(Duration::from_nanos(u128::MAX));
    assert_eq!(timings.rto, Duration::from_secs(120));
}

#[test]
fn later_samples_are_smoothed() {
    let mut timings = Timings::default();
    timings.update_rtt(Duration::from_millis(100));
    timings.update_rtt(Duration::from_millis(180));
    // (3 * 50 + 80) / 4 and (7 * 100 + 180) / 8
    assert_eq!(timings.rtt_var, Duration::from_nanos(57_500_000));
    assert_eq!(timings.srtt, Duration::from_millis(110));
    // 340 ms, raised to the minimum
    assert_eq!(timings.rto, Duration::from_secs(1));
    timings.update_rtt(Duration::from_millis(30));
    assert_eq!(timings.rtt_var, Duration::from_nanos((3 * 57_500_000 + 80_000_000) / 4));
    assert_eq!(timings.srtt, Duration::from_millis(100));
}

#[test]
fn samples_of_zero_stay_first() {
    let mut timings = Timings::default();
    timings.update_rtt(Duration::zero());
    timings.update_rtt(Duration::from_millis(7));
    assert_eq!(timings.srtt, Duration::from_millis(7));
    assert_eq!(timings.rto, Duration::from_secs(1));
}

fn timers(re_tx: Option<u64>, timewait: Option<u64>, usertime: Option<u64>) -> Timers<Ticks> {
    Timers {
        re_tx: re_tx.map(Ticks),
        timewait: timewait.map(Ticks),
        usertime: usertime.map(Ticks),
    }
}

fn fields(timers: &Timers<Ticks>) -> (Option<u64>, Option<u64>, Option<u64>) {
    (timers.re_tx.map(|t| t.0), timers.timewait.map(|t| t.0), timers.usertime.map(|t| t.0))
}

#[test]
fn timers_that_are_not_due_stay() {
    let mut t = timers(Some(10), Some(11), Some(12));
    let mut state = ConnectionState::TimeWait;
    let work = t.on_time_tick(&mut state, Ticks(9));
    assert_eq!(work, TimerWork { retransmit: false, user_timeout: false });
    assert_eq!(fields(&t), (Some(10), Some(11), Some(12)));
    assert_eq!(state, ConnectionState::TimeWait);
}

#[test]
fn end_of_waiting_closes_the_connection() {
    let mut t = timers(Some(100), Some(10), Some(10));
    let mut state = ConnectionState::TimeWait;
    let work = t.on_time_tick(&mut state, Ticks(10));
    assert_eq!(work, TimerWork { retransmit: false, user_timeout: false });
    assert_eq!(fields(&t), (None, None, None));
    assert_eq!(state, ConnectionState::Closed);
}

#[test]
fn retransmission_is_due_once() {
    let mut t = timers(Some(10), None, Some(30));
    let mut state = ConnectionState::fully_open();
    let work = t.on_time_tick(&mut state, Ticks(20));
    assert_eq!(work, TimerWork { retransmit: true, user_timeout: false });
    assert_eq!(fields(&t), (None, None, Some(30)));
    let work = t.on_time_tick(&mut state, Ticks(20));
    assert_eq!(work, TimerWork { retransmit: false, user_timeout: false });
    let work = t.on_time_tick(&mut state, Ticks(30));
    assert_eq!(work, TimerWork { retransmit: false, user_timeout: true });
    assert_eq!(fields(&t), (None, None, None));
    assert_eq!(state, ConnectionState::fully_open());
}

#[test]
fn nothing_is_sent_again_after_a_reset() {
    let mut t = timers(Some(10), None, None);
    let mut state = ConnectionState::Reset;
    let work = t.on_time_tick(&mut state, Ticks(10));
    assert_eq!(work, TimerWork { retransmit: false, user_timeout: false });
    assert_eq!(fields(&t), (None, None, None));
    assert_eq!(state, ConnectionState::Reset);
    assert!(!Timers::<Ticks>::on_timer_re_tx(ConnectionState::Reset));
    assert!(Timers::<Ticks>::on_timer_re_tx(ConnectionState::SynSent));
}

#[test]
fn cleared_timers_are_off() {
    let mut t = timers(Some(1), Some(2), Some(3));
    t.clear();
    assert_eq!(fields(&t), (None, None, None));
    assert_eq!(fields(&Timers::default()), (None, None, None));
    assert_eq!(fields(&timers(Some(1), None, None).clone()), (Some(1), None, None));
    let mut state = ConnectionState::TimeWait;
    let mut t = timers(Some(1), Some(2), Some(3));
    t.on_timer_timewait(&mut state);
    assert_eq!(fields(&t), (None, None, None));
    assert_eq!(state, ConnectionState::Closed);
}

#[test]
fn long_samples_do_not_overflow() {
    let longest = u64::MAX as u128 * 1_000_000_000 + 999_999_999;
    let sample = Duration::from_nanos(longest / 8);
    let mut timings = Timings::default();
    timings.update_rtt(sample);
    timings.update_rtt(Duration::from_nanos(1));
    let low = timings.srtt;
    timings.update_rtt(sample);
    assert!(low <= timings.srtt && timings.srtt <= sample);
    assert!(timings.rtt_var <= sample);
    assert_eq!(timings.rto, Duration::from_secs(120));
}
