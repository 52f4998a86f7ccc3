use ato::interval::Interval;
use ato::{sleep, yield_now, Duration, DurationSleep, Poll};

fn ms(n: u64) -> Duration {
    Duration::from_millis(n)
}

#[test]
fn duration_constructors_agree() {
    assert_eq!(Duration::from_secs(2), Duration::from_millis(2000));
    assert_eq!(Duration::from_millis(3), Duration::from_micros(3000));
    assert_eq!(Duration::from_micros(4), Duration::from_nanos(4000));
    assert_eq!(Duration::new(1, 500_000_000), Duration::from_millis(1500));
    assert_eq!(Duration::new(0, 2_000_000_001), Duration::new(2, 1));
    assert_eq!(Duration::new(5, 7).as_nanos(), 5_000_000_007);
    assert_eq!(Duration::new(5, 7).as_secs(), 5);
    assert_eq!(Duration::new(5, 7).subsec_nanos(), 7);
    assert!(Duration::zero().is_zero());
    assert!(!ms(1).is_zero());
}

#[test]
fn duration_arithmetic() {
    assert_eq!(ms(10).saturating_sub(ms(3)), ms(7));
    assert_eq!(ms(3).saturating_sub(ms(10)), Duration::zero());
    assert_eq!(ms(10).checked_add(ms(5)), Some(ms(15)));
    assert_eq!(ms(10).checked_add(ms(5)).unwrap().saturating_sub(ms(5)), ms(10));
    let longest = Duration::new(u64::MAX, 999_999_999);
    assert_eq!(longest.checked_add(Duration::from_nanos(1)), None);
    assert_eq!(longest.checked_add(Duration::zero()), Some(longest));
    assert!(ms(5).is_at_least(&ms(5)));
    assert!(!ms(4).is_at_least(&ms(5)));
}

#[test]
fn sleep_counts_from_first_poll() {
    let mut s: DurationSleep = sleep(ms(10));
    assert_eq!(s.poll(ms(100)), Poll::Pending);
    assert_eq!(s.poll(ms(109)), Poll::Pending);
    assert_eq!(s.poll(ms(110)), Poll::Ready);
    assert_eq!(s.poll(ms(500)), Poll::Ready);
}

#[test]
fn zero_sleep_is_ready_at_once() {
    let mut s = DurationSleep::new(Duration::zero());
    assert_eq!(s.poll(ms(3)), Poll::Ready);
}

#[test]
fn sleep_with_clock_going_back_waits() {
    let mut s = sleep(ms(10));
    assert_eq!(s.poll(ms(50)), Poll::Pending);
    assert_eq!(s.poll(ms(20)), Poll::Pending);
    assert_eq!(s.poll(ms(60)), Poll::Ready);
}

#[test]
fn yield_now_yields_once() {
    let mut y = yield_now();
    assert_eq!(y.poll(), Poll::Pending);
    assert_eq!(y.poll(), Poll::Ready);
    assert_eq!(y.poll(), Poll::Ready);
}

#[test]
fn interval_first_tick_is_immediate() {
    let mut i = Interval::new(ms(500), ms(1000));
    assert_eq!(i.tick().poll(ms(1000)), Poll::Ready);
    assert_eq!(i.tick().poll(ms(1000)), Poll::Pending);
    assert_eq!(i.tick().poll(ms(1499)), Poll::Pending);
    assert_eq!(i.tick().poll(ms(1500)), Poll::Ready);
}

#[test]
fn interval_missed_ticks_burst() {
    let mut i = Interval::new(ms(100), ms(0));
    assert_eq!(i.tick().poll(ms(350)), Poll::Ready);
    assert_eq!(i.tick().poll(ms(350)), Poll::Ready);
    assert_eq!(i.tick().poll(ms(350)), Poll::Ready);
    assert_eq!(i.tick().poll(ms(350)), Poll::Ready);
    assert_eq!(i.tick().poll(ms(350)), Poll::Pending);
}

#[test]
fn interval_reset_drops_missed_ticks() {
    let mut i = Interval::new(ms(100), ms(0));
    i.reset(ms(350));
    assert_eq!(i.tick().poll(ms(350)), Poll::Ready);
    assert_eq!(i.tick().poll(ms(350)), Poll::Pending);
    assert_eq!(i.tick().poll(ms(450)), Poll::Ready);
}

#[test]
fn interval_three_ticks_take_two_periods() {
    let mut i = Interval::new(ms(500), ms(0));
    let mut now = 0u64;
    let mut ticks = 0;
    while ticks < 3 {
        if i.tick().poll(ms(now)) == Poll::Ready {
            ticks += 1;
        }
        now += 50;
    }
    assert_eq!(now - 50, 1000);
}

#[test]
fn sleep_many_polls_count_from_the_first() {
    let mut s = sleep(ms(30));
    let times = [5u64, 10, 20, 34, 35, 36, 100];
    let expected = [false, false, false, false, true, true, true];
    for (t, e) in times.iter().zip(expected.iter()) {
        assert_eq!(s.poll(ms(*t)) == Poll::Ready, *e);
    }
}

#[test]
fn yield_now_is_pending_only_once_over_many_polls() {
    let mut y = yield_now();
    assert_eq!(y.poll(), Poll::Pending);
    for _ in 0..20 {
        assert_eq!(y.poll(), Poll::Ready);
    }
}

#[test]
fn interval_never_ticks_faster_than_its_period() {
    // Base 0, period 100 ms, polled every 7 ms up to 994 ms: at most
    // 994 / 100 + 1 = 10 ticks, and exactly that many here.
    let mut i = Interval::new(ms(100), ms(0));
    let mut ticks = 0u64;
    let mut now = 0u64;
    while now <= 1000 {
        if i.tick().poll(ms(now)) == Poll::Ready {
            ticks += 1;
        }
        now += 7;
    }
    assert!(ticks <= 10);
    assert_eq!(ticks, 10);
    assert_eq!(i.next_tick(), ms(1000));
    assert_eq!(i.period(), ms(100));
}

#[test]
fn interval_latency_does_not_shift_the_schedule() {
    let mut i = Interval::new(ms(100), ms(0));
    assert_eq!(i.tick().poll(ms(0)), Poll::Ready);
    assert_eq!(i.tick().poll(ms(130)), Poll::Ready);
    assert_eq!(i.next_tick(), ms(200));
    assert_eq!(i.tick().poll(ms(199)), Poll::Pending);
    assert_eq!(i.tick().poll(ms(200)), Poll::Ready);
}
