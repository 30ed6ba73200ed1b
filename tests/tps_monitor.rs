use proxy_tps::{Contribution, TpsMonitor, TpsSample, DEFAULT_WINDOW_SECS, NANOS_PER_SEC};

const SEC: u64 = NANOS_PER_SEC;

/// An arbitrary monotonic instant well past one window span.
const T0: u64 = 1_000 * SEC;

fn rate(sample: &TpsSample) -> f64 {
    let mut tokens = 0.0f64;
    for c in &sample.contributions {
        tokens += (c.output_tokens as f64) * (c.overlap_nanos as f64 / c.span_nanos as f64);
    }
    if tokens <= 0.0 {
        return 0.0;
    }
    tokens / sample.window_secs as f64
}

#[test]
fn empty_is_zero() {
    let mut m = TpsMonitor::new(5);
    assert_eq!(rate(&m.current_tps_at(T0)), 0.0);
}

#[test]
fn ignores_zero_tokens() {
    let mut m = TpsMonitor::new(5);
    let end = T0;
    let start = end - SEC;
    m.record_completed_request(0, start, end);
    assert_eq!(m.segment_count(), 0);
    assert_eq!(rate(&m.current_tps_at(end)), 0.0);
}

#[test]
fn basic_tps() {
    let mut m = TpsMonitor::new(5);
    let end = T0;
    let start = end - 10 * SEC;
    m.record_completed_request(100, start, end);
    assert!((rate(&m.current_tps_at(end)) - 10.0).abs() < 1e-9);
}

#[test]
fn expires_out_of_window() {
    let mut m = TpsMonitor::new(5);
    let end = T0;
    let start = end - 10 * SEC;
    m.record_completed_request(100, start, end);
    let later = end + 6 * SEC;
    assert_eq!(rate(&m.current_tps_at(later)), 0.0);
}

#[test]
fn basic_tps_exact_share() {
    let mut m = TpsMonitor::new(5);
    m.record_completed_request(100, T0 - 10 * SEC, T0);
    let sample = m.current_tps_at(T0);
    assert_eq!(sample.window_secs, 5);
    assert_eq!(
        sample.contributions,
        vec![Contribution { output_tokens: 100, overlap_nanos: 5 * SEC, span_nanos: 10 * SEC }]
    );
}

#[test]
fn expired_segment_is_evicted_on_query() {
    let mut m = TpsMonitor::new(5);
    m.record_completed_request(100, T0 - 10 * SEC, T0);
    assert_eq!(m.segment_count(), 1);
    let sample = m.current_tps_at(T0 + 6 * SEC);
    assert!(sample.contributions.is_empty());
    assert_eq!(m.segment_count(), 0);
}

#[test]
fn segment_ending_exactly_at_cutoff_is_kept_but_idle() {
    let mut m = TpsMonitor::new(5);
    m.record_completed_request(100, T0 - 10 * SEC, T0);
    let sample = m.current_tps_at(T0 + 5 * SEC);
    assert!(sample.contributions.is_empty());
    assert_eq!(m.segment_count(), 1);
}

#[test]
fn ignores_non_positive_duration() {
    let mut m = TpsMonitor::new(5);
    m.record_completed_request(50, T0, T0);
    assert_eq!(m.segment_count(), 0);
    m.record_completed_request(50, T0, T0 - SEC);
    assert_eq!(m.segment_count(), 0);
    assert_eq!(rate(&m.current_tps_at(T0)), 0.0);
}

#[test]
fn idle_at_any_instant_without_records() {
    let mut m = TpsMonitor::new(3);
    for now in [0, 1, 3 * SEC - 1, 3 * SEC, T0, u64::MAX] {
        assert!(m.current_tps_at(now).contributions.is_empty());
    }
    assert_eq!(m.segment_count(), 0);
}

#[test]
fn query_before_one_window_is_zero() {
    let mut m = TpsMonitor::new(5);
    m.record_completed_request(40, SEC, 2 * SEC);
    let sample = m.current_tps_at(2 * SEC);
    assert!(sample.contributions.is_empty());
    assert_eq!(rate(&sample), 0.0);
    assert_eq!(m.segment_count(), 1);
}

#[test]
fn record_evicts_old_segments() {
    let mut m = TpsMonitor::new(5);
    m.record_completed_request(10, T0 - 2 * SEC, T0 - SEC);
    m.record_completed_request(10, T0 - SEC, T0);
    assert_eq!(m.segment_count(), 2);
    m.record_completed_request(10, T0 + 10 * SEC, T0 + 11 * SEC);
    assert_eq!(m.segment_count(), 1);
}

#[test]
fn eviction_only_from_front() {
    let mut m = TpsMonitor::new(5);
    m.record_completed_request(10, T0 - SEC, T0 + 100 * SEC);
    m.record_completed_request(10, T0 - 2 * SEC, T0 - SEC);
    let sample = m.current_tps_at(T0 + 50 * SEC);
    assert_eq!(m.segment_count(), 2);
    assert_eq!(
        sample.contributions,
        vec![Contribution { output_tokens: 10, overlap_nanos: 5 * SEC, span_nanos: 101 * SEC }]
    );
}

#[test]
fn reset_clears_and_keeps_window() {
    let mut m = TpsMonitor::new(7);
    m.record_completed_request(100, T0 - 10 * SEC, T0);
    m.record_completed_request(30, T0 - SEC, T0);
    m.reset();
    assert_eq!(m.segment_count(), 0);
    assert_eq!(m.window_secs(), 7);
    let sample = m.current_tps_at(T0);
    assert!(sample.contributions.is_empty());
    assert_eq!(rate(&sample), 0.0);
    m.reset();
    assert_eq!(m.segment_count(), 0);
}

#[test]
fn partial_overlaps_are_proportional() {
    let mut m = TpsMonitor::new(5);
    // starts before the window, ends inside it: 2 s of its 4 s are inside
    m.record_completed_request(80, T0 - 7 * SEC, T0 - 3 * SEC);
    // starts inside the window, still running past the query: 1 s of 3 s
    m.record_completed_request(60, T0 - SEC, T0 + 2 * SEC);
    let sample = m.current_tps_at(T0);
    assert_eq!(
        sample.contributions,
        vec![
            Contribution { output_tokens: 80, overlap_nanos: 2 * SEC, span_nanos: 4 * SEC },
            Contribution { output_tokens: 60, overlap_nanos: SEC, span_nanos: 3 * SEC },
        ]
    );
    for c in &sample.contributions {
        assert!(c.overlap_nanos < c.span_nanos);
    }
    // 80 * 2/4 + 60 * 1/3 = 60 units over 5 s
    assert!((rate(&sample) - 12.0).abs() < 1e-9);
}

#[test]
fn segment_fully_inside_counts_whole() {
    let mut m = TpsMonitor::new(5);
    m.record_completed_request(30, T0 - 3 * SEC, T0 - SEC);
    let sample = m.current_tps_at(T0);
    assert_eq!(
        sample.contributions,
        vec![Contribution { output_tokens: 30, overlap_nanos: 2 * SEC, span_nanos: 2 * SEC }]
    );
    assert!((rate(&sample) - 6.0).abs() < 1e-9);
}

#[test]
fn future_segment_does_not_count() {
    let mut m = TpsMonitor::new(5);
    m.record_completed_request(30, T0 + SEC, T0 + 2 * SEC);
    assert!(m.current_tps_at(T0).contributions.is_empty());
}

#[test]
fn zero_window_behaves_as_one_second() {
    let mut a = TpsMonitor::new(0);
    let mut b = TpsMonitor::new(1);
    assert_eq!(a.window_secs(), 1);
    assert_eq!(b.window_secs(), 1);
    for m in [&mut a, &mut b] {
        m.record_completed_request(10, T0 - 2 * SEC, T0);
    }
    let sa = a.current_tps_at(T0);
    let sb = b.current_tps_at(T0);
    assert_eq!(sa.window_secs, sb.window_secs);
    assert_eq!(sa.contributions, sb.contributions);
    assert!((rate(&sa) - 5.0).abs() < 1e-9);
}

#[test]
fn default_window_is_five_seconds() {
    let m = TpsMonitor::default();
    assert_eq!(DEFAULT_WINDOW_SECS, 5);
    assert_eq!(m.window_secs(), 5);
    assert_eq!(m.segment_count(), 0);
}

#[test]
fn largest_window_and_instant_do_not_overflow() {
    let mut m = TpsMonitor::new(u64::MAX);
    m.record_completed_request(u64::MAX, 0, u64::MAX);
    let sample = m.current_tps_at(u64::MAX);
    assert!(sample.contributions.is_empty());
    assert_eq!(m.segment_count(), 1);
}
