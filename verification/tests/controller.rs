use fixed_rate::congestion::{FixedRate, FixedRateConfig, MAX_KBITS_PER_SEC, MAX_RTT_MSEC};

fn controller(kbits_per_sec: u64) -> FixedRate {
    FixedRate::new(FixedRateConfig { kbits_per_sec })
}

#[test]
fn initial_window_law() {
    for rate in [0u64, 1, 7, 8, 1000, 123_456, MAX_KBITS_PER_SEC] {
        let c = controller(rate);
        assert_eq!(c.initial_window(), rate * 1000 / 8);
        assert_eq!(c.window(), c.initial_window());
    }
}

#[test]
fn example_scenario() {
    let mut c = controller(1000);
    assert_eq!(c.initial_window(), 125_000);
    assert_eq!(c.window(), 125_000);

    // One 50 ms sample: the estimate decays from the 1000 ms seed to
    // floor((256000 - 1000 + 50) / 256) = 996 ms, so the window becomes
    // 1000 * 996 / 8 = 124500 bytes.
    c.on_ack(1200, false, 50);
    assert_eq!(c.window(), 124_500);

    // After ~2000 further 50 ms samples the estimate has converged to 50 ms
    // exactly, and the window to 1000 * 50 / 8 = 6250 bytes.
    for _ in 0..2000 {
        c.on_ack(1200, false, 50);
    }
    assert_eq!(c.window(), 6250);
}

#[test]
fn follows_documented_formula() {
    // Mirror the fixed-point recurrence from the module documentation and
    // check the controller against it after every acknowledgment.
    let rate: u64 = 48_000;
    let mut c = controller(rate);
    let mut sum: u64 = 1000 << 40;
    let mut weight: u64 = 1 << 40;
    let samples = [50u64, 50, 0, 1, 999, 1000, 1001, 250_000, MAX_RTT_MSEC, 3, 3, 3];
    for &rtt in &samples {
        c.on_ack(1, true, rtt);
        sum = sum - sum / 256 + (rtt << 32);
        weight = weight - weight / 256 + (1 << 32);
        assert_eq!(c.window(), rate * (sum / weight) / 8);
    }
}

#[test]
fn determinism() {
    let mut a = controller(777);
    let mut b = controller(777);
    let samples = [12u64, 900, 4, 4, 88, 1000, 0, 65_535];
    for &rtt in &samples {
        a.on_ack(100, false, rtt);
        b.on_ack(100, false, rtt);
        assert_eq!(a.window(), b.window());
    }
    assert_eq!(a, b);
}

#[test]
fn congestion_events_are_noop() {
    let mut with_congestion = controller(2500);
    let mut without = controller(2500);
    let samples = [30u64, 31, 32, 500, 12];
    for (i, &rtt) in samples.iter().enumerate() {
        with_congestion.on_congestion_event(i % 2 == 0);
        with_congestion.on_ack(10, false, rtt);
        with_congestion.on_congestion_event(true);
        without.on_ack(10, false, rtt);
        assert_eq!(with_congestion.window(), without.window());
    }
    assert_eq!(with_congestion, without);
}

#[test]
fn clone_independence() {
    let mut original = controller(1000);
    original.on_ack(100, false, 200);
    let mut copy = original.duplicate();
    assert_eq!(copy.window(), original.window());

    let before = copy.window();
    original.on_ack(100, false, 10);
    assert_eq!(copy.window(), before);
    assert_ne!(original.window(), before);

    let original_before = original.window();
    copy.on_ack(100, false, 900);
    assert_eq!(original.window(), original_before);
}

#[test]
fn ewma_convergence() {
    // A constant sample pulls the window to the rate-sustaining value,
    // monotonically and without overshooting, from either side of the seed.
    let rate: u64 = 500;
    let mut c = controller(rate);
    let mut previous = c.window();
    for _ in 0..2000 {
        c.on_ack(64, false, 200);
        assert!(c.window() <= previous);
        assert!(c.window() >= rate * 200 / 8);
        previous = c.window();
    }
    assert_eq!(c.window(), rate * 200 / 8);

    let mut up = controller(rate);
    let mut previous_up = up.window();
    for _ in 0..10_000 {
        up.on_ack(64, false, 5000);
        assert!(up.window() >= previous_up);
        assert!(up.window() <= rate * 5000 / 8);
        previous_up = up.window();
    }
    assert_eq!(up.window(), rate * 5000 / 8);
}

#[test]
fn zero_rate_boundary() {
    let mut c = controller(0);
    assert_eq!(c.initial_window(), 0);
    assert_eq!(c.window(), 0);
    for rtt in [0u64, 1, 1000, MAX_RTT_MSEC] {
        c.on_ack(5000, false, rtt);
        c.on_congestion_event(true);
        assert_eq!(c.window(), 0);
    }
}

#[test]
fn build_matches_new() {
    let config = FixedRateConfig { kbits_per_sec: 4200 };
    let built = config.build();
    let made = FixedRate::new(config);
    assert_eq!(built, made);
    assert_eq!(built.window(), 4200 * 1000 / 8);
}

#[test]
fn estimate_is_zero_after_zero_samples() {
    // RTT samples of zero drive the estimate, and so the window, to zero.
    let mut c = controller(1_000_000);
    for _ in 0..8000 {
        c.on_ack(1, false, 0);
    }
    assert_eq!(c.window(), 0);
}

#[test]
fn largest_supported_rate_and_rtt() {
    let mut c = controller(MAX_KBITS_PER_SEC);
    assert_eq!(c.initial_window(), MAX_KBITS_PER_SEC * 125);
    for _ in 0..12_000 {
        c.on_ack(u64::MAX, true, MAX_RTT_MSEC);
    }
    assert_eq!(c.window(), MAX_KBITS_PER_SEC * MAX_RTT_MSEC / 8);
}
