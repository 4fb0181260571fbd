use signal_watch::clock::ClockManager;
use signal_watch::clock::MILLISECOND;
use signal_watch::clock::SECOND;
use signal_watch::clock::StartedClockManager;
use signal_watch::clock::TimerError;
use signal_watch::rtc::COUNTER_PERIOD;
use signal_watch::rtc::MAX_DURATION;
use signal_watch::rtc::RtcHandle;

fn started() -> StartedClockManager<u32, 3> {
    ClockManager::<u32, 3>::new(vec![0, 0, 0]).start()
}

#[test]
fn tick_constants() {
    assert_eq!(MILLISECOND, 32);
    assert_eq!(SECOND, 32768);
    assert_eq!(COUNTER_PERIOD, 1 << 24);
    assert_eq!(MAX_DURATION, 1 << 23);
}

#[test]
fn boot_counters_are_retained() {
    let m = ClockManager::<u32, 3>::new(vec![5, 6, 7]).start();
    assert_eq!(m.channel_counter(0), 5);
    assert_eq!(m.channel_counter(1), 6);
    assert_eq!(m.channel_counter(2), 7);
    assert!(m.is_idle(0) && m.is_idle(1) && m.is_idle(2));
}

#[test]
fn delay_one_second_elapses_exactly() {
    let mut m = started();
    let elapsed = m.delay(0, SECOND).unwrap();
    assert!(elapsed >= 32768);
    assert!(elapsed <= 32768 + 16);
    assert!(!m.channel_running(0));
    assert!(m.is_idle(0));
}

#[test]
fn delay_zero_returns_at_once() {
    let mut m = started();
    assert_eq!(m.delay(1, 0), Ok(0));
    assert_eq!(m.channel_counter(1), 0);
    assert!(m.is_idle(1));
}

#[test]
fn delay_out_of_range_writes_nothing() {
    let mut m = started();
    assert_eq!(m.delay(0, 1 << 23), Err(TimerError::DurationOutOfRange));
    assert_eq!(m.channel_counter(0), 0);
    assert!(!m.channel_running(0));
    assert!(!m.channel_interrupt_armed(0));
    assert!(m.is_idle(0));
}

#[test]
fn after_out_of_range_is_refused() {
    let mut m = started();
    assert_eq!(m.after(2, 1 << 23, 1), Err(TimerError::DurationOutOfRange));
    assert!(m.is_idle(2));
}

#[test]
fn after_fires_on_the_exact_tick() {
    let mut m = started();
    assert_eq!(m.after(1, 100, 7), Ok(()));
    for _ in 0..99 {
        m.tick(1);
    }
    assert_eq!(m.on_rtc1(), None);
    assert!(m.channel_running(1));
    m.tick(1);
    assert_eq!(m.on_rtc1(), Some(7));
    assert_eq!(m.on_rtc1(), None);
    assert!(!m.channel_running(1));
    assert!(m.is_idle(1));
}

#[test]
fn busy_channel_is_refused() {
    let mut m = started();
    assert_eq!(m.after(0, 50, 1), Ok(()));
    assert_eq!(m.after(0, 60, 2), Err(TimerError::ChannelBusy));
    assert_eq!(m.delay(0, 10), Err(TimerError::ChannelBusy));
    m.cancel(0);
    assert_eq!(m.after(0, 60, 2), Ok(()));
    m.cancel(0);
}

#[test]
fn cancel_before_deadline_silences_the_channel() {
    let mut m = started();
    assert_eq!(m.after(2, 200, 9), Ok(()));
    for _ in 0..50 {
        m.tick(2);
    }
    m.cancel(2);
    assert!(!m.channel_running(2));
    assert!(!m.channel_interrupt_armed(2));
    assert!(m.is_idle(2));
    for _ in 0..200 {
        m.tick(2);
    }
    assert_eq!(m.on_rtc2(), None);
    assert!(m.is_idle(2));
}

#[test]
fn two_channels_fire_in_dispatch_order() {
    let mut m = started();
    assert_eq!(m.after(0, 50, 100), Ok(()));
    assert_eq!(m.after(1, 50, 200), Ok(()));
    for _ in 0..50 {
        m.tick(0);
        m.tick(1);
    }
    let mut order = Vec::new();
    if let Some(cb) = m.on_rtc0() {
        order.push(cb);
    }
    if let Some(cb) = m.on_rtc1() {
        order.push(cb);
    }
    assert_eq!(order, vec![100, 200]);
    assert_eq!(m.on_rtc0(), None);
    assert_eq!(m.on_rtc1(), None);
    assert!(!m.channel_running(0));
    assert!(!m.channel_running(1));
}

#[test]
fn after_then_delay_on_other_channel() {
    let mut m = started();
    assert_eq!(m.after(2, 40, 5), Ok(()));
    assert_eq!(m.delay(0, 25), Ok(25));
    for _ in 0..40 {
        m.tick(2);
    }
    assert_eq!(m.on_rtc2(), Some(5));
}

#[test]
fn compare_event_survives_wrap_around() {
    // Counter starts 10 ticks short of the 24-bit wrap; the target sits 20
    // ticks ahead, past the wrap point.
    let start = COUNTER_PERIOD - 10;
    let mut h = RtcHandle::new(start);
    h.set_compare(0, 10);
    h.arm_event(0);
    h.start();
    for i in 1..20u32 {
        h.tick();
        assert!(!h.take_event(0), "fired early at tick {}", i);
    }
    h.tick();
    assert!(h.take_event(0));
    assert_eq!(h.now(), 10);
    // The flag was taken; it does not fire again before another full lap.
    for _ in 0..1000 {
        h.tick();
        assert!(!h.take_event(0));
    }
}

#[test]
fn stopped_counter_holds_its_value() {
    let mut h = RtcHandle::new(123);
    h.tick();
    assert_eq!(h.now(), 123);
    h.start();
    h.tick();
    h.tick();
    assert_eq!(h.now(), 125);
    h.stop();
    h.tick();
    assert_eq!(h.now(), 125);
    h.clear_counter();
    assert_eq!(h.now(), 0);
}
