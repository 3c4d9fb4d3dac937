use link_metronome::host_time_filter::HostTimeFilter;

#[test]
fn single_sample_returns_its_host_clock() {
    let mut f = HostTimeFilter::new();
    let r = f.sample_time_to_host_time(1000, 77);
    assert_eq!(r, 1000);

    let mut g = HostTimeFilter::new();
    let r2 = g.sample_time_to_host_time(123456, 0);
    assert_eq!(r2, 123456);
}

#[test]
fn exact_linear_data_is_reproduced() {
    // host = 3 * sample + 500, noise-free: every estimate is exact.
    let mut f = HostTimeFilter::new();
    for i in 0..200u64 {
        let sample = 100 * i;
        let host = (3 * sample + 500) as i64;
        let r = f.sample_time_to_host_time(host, sample);
        assert_eq!(r, host);
    }
}

#[test]
fn degenerate_sample_clock_averages_host_clocks() {
    // All observations at the same sample clock: slope 0, mean host time.
    let mut f = HostTimeFilter::new();
    let r1 = f.sample_time_to_host_time(100, 5);
    assert_eq!(r1, 100);
    let r2 = f.sample_time_to_host_time(300, 5);
    assert_eq!(r2, 200);
}

#[test]
fn estimate_rounds_half_away_from_zero() {
    // Points (0,0), (1,0), (2,3): the fitted value at sample 2 is 2.5,
    // which rounds away from zero to 3.
    let mut f = HostTimeFilter::new();
    assert_eq!(f.sample_time_to_host_time(0, 0), 0);
    assert_eq!(f.sample_time_to_host_time(0, 1), 0);
    assert_eq!(f.sample_time_to_host_time(3, 2), 3);
}

#[test]
fn ring_overwrite_forgets_the_oldest_sample() {
    // Two filters whose first observation differs; after capacity + 1
    // insertions the differing entry has been overwritten, so the
    // estimates coincide (and, the data being linear, are exact).
    let mut a = HostTimeFilter::new();
    let mut b = HostTimeFilter::new();
    a.sample_time_to_host_time(0, 0);
    b.sample_time_to_host_time(7, 12345);
    let mut last_a = 0;
    let mut last_b = 0;
    for i in 1..=512u64 {
        last_a = a.sample_time_to_host_time(2 * i as i64 + 10, i);
        last_b = b.sample_time_to_host_time(2 * i as i64 + 10, i);
    }
    assert_eq!(last_a, 2 * 512 + 10);
    assert_eq!(last_b, 2 * 512 + 10);
    assert_eq!(last_a, last_b);
}

#[test]
fn extreme_in_range_values_are_handled_exactly() {
    // The largest admissible observation still yields the exact estimate.
    let mut f = HostTimeFilter::new();
    let max_clock: i64 = 0x40_0000_0000;
    let max_sample: u64 = 0x4000_0000;
    let r = f.sample_time_to_host_time(max_clock, max_sample);
    assert_eq!(r, max_clock);
    let r2 = f.sample_time_to_host_time(0, 0);
    // Two points define the line exactly; the estimate at sample 0 is its
    // host clock.
    assert_eq!(r2, 0);
}

#[test]
fn reset_clears_history() {
    let mut f = HostTimeFilter::new();
    f.sample_time_to_host_time(1000, 1);
    f.sample_time_to_host_time(5000, 2);
    f.reset();
    // Behaves like a fresh filter: one sample, returns its host clock.
    let r = f.sample_time_to_host_time(42, 99);
    assert_eq!(r, 42);
}
