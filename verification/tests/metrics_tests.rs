use hammerload::metrics::Metrics;

#[test]
fn fresh_sink_is_empty() {
    let m = Metrics::new();
    assert_eq!(m.total_requests(), 0);
    assert_eq!(m.successful_requests(), 0);
    assert_eq!(m.failed_requests(), 0);
    assert_eq!(m.bytes_sent(), 0);
    assert_eq!(m.bytes_received(), 0);
    assert_eq!(m.min_latency(), u64::MAX);
    assert_eq!(m.max_latency(), 0);
    assert_eq!(m.histogram().len(), 0);
    assert!(m.histogram().bins().is_empty());
}

#[test]
fn counters_count_by_one() {
    let mut m = Metrics::new();
    m.increment_total_requests();
    m.increment_total_requests();
    m.increment_total_requests();
    m.increment_successful_requests();
    m.increment_successful_requests();
    m.increment_failed_requests();
    assert_eq!(m.total_requests(), 3);
    assert_eq!(m.successful_requests(), 2);
    assert_eq!(m.failed_requests(), 1);
    assert_eq!(m.total_requests(), m.successful_requests() + m.failed_requests());
}

#[test]
fn byte_totals_add_up() {
    let mut m = Metrics::new();
    m.add_bytes_sent(10);
    m.add_bytes_sent(32);
    m.add_bytes_received(17);
    m.add_bytes_received(0);
    assert_eq!(m.bytes_sent(), 42);
    assert_eq!(m.bytes_received(), 17);
    assert_eq!(m.total_requests(), 0);
}

#[test]
fn byte_totals_wrap_around() {
    let mut m = Metrics::new();
    m.add_bytes_sent(u64::MAX);
    m.add_bytes_sent(2);
    assert_eq!(m.bytes_sent(), 1);
    m.add_bytes_received(u64::MAX);
    m.add_bytes_received(1);
    assert_eq!(m.bytes_received(), 0);
}

#[test]
fn counters_never_decrease_in_a_short_run() {
    let mut m = Metrics::new();
    let mut before = (0u64, 0u64, 0u64, 0u64, 0u64);
    for i in 0..50u64 {
        m.increment_total_requests();
        if i % 3 == 0 {
            m.increment_failed_requests();
        } else {
            m.increment_successful_requests();
        }
        m.add_bytes_sent(i);
        m.add_bytes_received(2 * i);
        let now = (
            m.total_requests(),
            m.successful_requests(),
            m.failed_requests(),
            m.bytes_sent(),
            m.bytes_received(),
        );
        assert!(before.0 <= now.0);
        assert!(before.1 <= now.1);
        assert!(before.2 <= now.2);
        assert!(before.3 <= now.3);
        assert!(before.4 <= now.4);
        before = now;
    }
}

#[test]
fn latency_bounds_follow_the_samples() {
    let mut m = Metrics::new();
    m.record_latency(500);
    assert_eq!(m.min_latency(), 500);
    assert_eq!(m.max_latency(), 500);
    m.record_latency(20);
    m.record_latency(9_000);
    m.record_latency(700);
    assert_eq!(m.min_latency(), 20);
    assert_eq!(m.max_latency(), 9_000);
    assert_eq!(m.histogram().len(), 4);
    for s in [500u64, 20, 9_000, 700] {
        assert!(m.min_latency() <= s && s <= m.max_latency());
    }
}

#[test]
fn latency_of_zero_and_of_the_greatest_value_are_taken() {
    let mut m = Metrics::new();
    m.record_latency(0);
    m.record_latency(u64::MAX);
    assert_eq!(m.min_latency(), 0);
    assert_eq!(m.max_latency(), u64::MAX);
    assert_eq!(m.histogram().len(), 2);
}

#[test]
fn histogram_snapshot_is_a_copy() {
    let mut m = Metrics::new();
    m.record_latency(100);
    let snapshot = m.histogram();
    m.record_latency(200);
    assert_eq!(snapshot.len(), 1);
    assert_eq!(m.histogram().len(), 2);
}

#[test]
fn histogram_bins_hold_what_was_recorded() {
    let mut m = Metrics::new();
    assert_eq!(m.histogram().len(), 0);
    m.record_latency(100);
    m.record_latency(100);
    m.record_latency(1_500);
    m.record_latency(10_001);
    assert_eq!(m.histogram().len(), 4);
    // Up to 2047 each value has a bin of its own; from 8192 on a bin is 8 wide.
    assert_eq!(m.histogram().bins(), vec![(100, 2), (1_500, 1), (10_007, 1)]);
    let copy = m.histogram();
    m.record_latency(5);
    assert_eq!(copy.bins(), vec![(100, 2), (1_500, 1), (10_007, 1)]);
    assert_eq!(m.histogram().bins(), vec![(5, 1), (100, 2), (1_500, 1), (10_007, 1)]);
}

#[test]
fn histogram_bins_stand_at_or_above_the_least_sample() {
    let mut m = Metrics::new();
    for us in [12_345u64, 999_999, 77, 4_000_000_000] {
        m.record_latency(us);
    }
    let bins = m.histogram().bins();
    assert_eq!(bins.len(), 4);
    for (value, count) in bins {
        assert!(value >= m.min_latency());
        assert!(count > 0);
    }
}

#[test]
fn micros_are_written_in_their_greatest_unit() {
    let m = Metrics::new();
    assert_eq!(m.format_micros(0), "0µs");
    assert_eq!(m.format_micros(999), "999µs");
    assert_eq!(m.format_micros(1_000), "1ms");
    assert_eq!(m.format_micros(1_999), "1ms");
    assert_eq!(m.format_micros(999_999), "999ms");
    assert_eq!(m.format_micros(1_000_000), "1s");
    assert_eq!(m.format_micros(59_999_999), "59s");
    assert_eq!(m.format_micros(60_000_000), "1m");
    assert_eq!(m.format_micros(3_599_999_999), "59m");
    assert_eq!(m.format_micros(3_600_000_000), "1h");
    assert_eq!(m.format_micros(7_300_000_000), "2h");
    assert_eq!(m.format_micros(u64::MAX), "5124095576h");
}

#[test]
fn topmost_bin_is_given_below_its_greatest_sample() {
    let mut m = Metrics::new();
    m.record_latency(u64::MAX);
    assert_eq!(m.histogram().bins(), vec![(u64::MAX - 1, 1)]);
    m.record_latency(0);
    assert_eq!(m.histogram().bins(), vec![(0, 1), (u64::MAX - 1, 1)]);
}

fn top_of(value: u64) -> u64 {
    if value == u64::MAX - 1 {
        u64::MAX
    } else {
        value
    }
}

fn bins_count_their_samples(samples: &[u64]) {
    let mut m = Metrics::new();
    for s in samples {
        m.record_latency(*s);
    }
    let bins = m.histogram().bins();
    assert_eq!(bins.is_empty(), samples.is_empty());
    for i in 0..bins.len() {
        let (value, count) = bins[i];
        assert!(value < u64::MAX);
        assert!(count > 0);
        if i > 0 {
            assert!(bins[i - 1].0 < value);
        }
        let held = samples
            .iter()
            .filter(|s| (i == 0 || bins[i - 1].0 < **s) && **s <= top_of(value))
            .count();
        assert_eq!(count, held as u64);
    }
    for s in samples {
        let homes = (0..bins.len())
            .filter(|i| (*i == 0 || bins[*i - 1].0 < *s) && *s <= top_of(bins[*i].0))
            .count();
        assert_eq!(homes, 1);
    }
}

#[test]
fn bins_count_the_samples_that_fall_into_them() {
    bins_count_their_samples(&[]);
    bins_count_their_samples(&[0]);
    bins_count_their_samples(&[u64::MAX]);
    bins_count_their_samples(&[u64::MAX - 1, u64::MAX, u64::MAX - 2]);
    bins_count_their_samples(&[0, 1, 2_047, 2_048, 2_049, 4_095, 4_096, 8_191, 8_192, 8_199, 8_200]);
    bins_count_their_samples(&[1u64 << 63, (1u64 << 63) - 1, (2_047u64 << 53) - 1, 2_047u64 << 53]);
    // Samples of every magnitude, from a fixed sequence.
    let mut samples = Vec::new();
    let mut x = 0x9E37_79B9_7F4A_7C15u64;
    for i in 0..2_000u32 {
        x = x.wrapping_mul(6_364_136_223_846_793_005).wrapping_add(1_442_695_040_888_963_407);
        samples.push(x >> (i % 64));
    }
    bins_count_their_samples(&samples);
    // Many samples close together.
    let near: Vec<u64> = (0..3_000u64).map(|i| 1_000_000 + 7 * i).collect();
    bins_count_their_samples(&near);
}
