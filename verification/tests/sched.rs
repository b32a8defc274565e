use iot_telemetry::sched::RefreshScheduler;

#[test]
fn starts_ready_to_signal() {
    let s = RefreshScheduler::new(2000);
    assert!(s.is_signaling());
    assert_eq!(s.interval_millis(), 2000);
    assert_eq!(s.next_deadline(), 0);
    assert!(s.timer_expired(0));
}

#[test]
fn delivery_sleeps_one_interval() {
    let mut s = RefreshScheduler::new(2000);
    s.signal_delivered(5);
    assert!(!s.is_signaling());
    assert_eq!(s.next_deadline(), 2005);
    assert!(!s.timer_expired(2004));
    assert!(s.timer_expired(2005));
    assert!(s.timer_expired(3000));
}

#[test]
fn tick_cycle_alternates_phases() {
    let mut s = RefreshScheduler::new(2000);
    s.signal_delivered(0);
    assert!(!s.is_signaling());
    s.start_signaling(2000);
    assert!(s.is_signaling());
    s.signal_delivered(2010);
    assert!(!s.is_signaling());
    assert_eq!(s.next_deadline(), 4010);
}

#[test]
fn cadence_over_a_window() {
    // Simulate ten seconds of ticks on a clock that runs a little late now
    // and then: the interval is 2000 ms, so the window of 10_000 ms sees at
    // most 10_000 / 2000 + 1 = 6 deliveries, and consecutive deliveries are
    // never closer than 2000 ms.
    let mut s = RefreshScheduler::new(2000);
    let mut delivered: Vec<u64> = Vec::new();
    let mut now: u64 = 0;
    while now <= 10_000 {
        if s.is_signaling() {
            s.signal_delivered(now);
            delivered.push(now);
        } else if s.timer_expired(now) {
            s.start_signaling(now);
            s.signal_delivered(now);
            delivered.push(now);
        }
        // The host wakes a little after each deadline.
        now = s.next_deadline() + (delivered.len() as u64 % 3) * 7;
    }
    assert!(delivered.len() <= 6);
    assert!(delivered.len() >= 5);
    for w in delivered.windows(2) {
        assert!(w[1] - w[0] >= 2000);
    }
}

#[test]
fn slow_consumer_coalesces_ticks() {
    // If the consumer shows up late, the signal for a tick is simply
    // delivered late and the next deadline moves out from the delivery time:
    // no backlog of missed ticks accumulates.
    let mut s = RefreshScheduler::new(2000);
    s.signal_delivered(0);
    s.start_signaling(2000);
    // The consumer was busy until 9000.
    s.signal_delivered(9000);
    assert_eq!(s.next_deadline(), 11_000);
}
