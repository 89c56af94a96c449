use papillon::{status_is_error, RequestStat, RequestStatSummary, StatAccumulator};

const MS: u64 = 1_000_000;

fn outcome(status: u16, size: u64, duration: u64) -> RequestStat {
    RequestStat::new("HTTP/1.1".to_string(), "http://localhost/".to_string(), status, Some(size))
        .with_duration(duration)
}

fn summarize(channels: Vec<Vec<RequestStat>>) -> RequestStatSummary {
    RequestStatSummary::from_channels(&channels)
}

#[test]
fn twenty_uniform_outcomes() {
    let outcomes: Vec<RequestStat> = (0..20).map(|_| outcome(200, 100, 50 * MS)).collect();
    let s = summarize(vec![outcomes]);
    assert_eq!(s.request_count, 20);
    assert_eq!(s.status_codes.sorted_counts(), vec![(200u16, 20u64)]);
    assert_eq!(s.min_duration, 50 * MS);
    assert_eq!(s.max_duration, 50 * MS);
    assert_eq!(s.avg_duration, 50 * MS);
    assert_eq!(s.total_query_size, 2000);
    assert_eq!(s.avg_query_size, 100);
    assert_eq!(s.min_query_size, 100);
    assert_eq!(s.max_query_size, 100);
}

#[test]
fn no_outcomes_give_zero_summary() {
    let s = summarize(vec![]);
    assert_eq!(s.request_count, 0);
    assert_eq!(s.avg_duration, 0);
    assert_eq!(s.min_duration, 0);
    assert_eq!(s.max_duration, 0);
    assert_eq!(s.total_duration, 0);
    assert_eq!(s.avg_query_size, 0);
    assert_eq!(s.min_query_size, 0);
    assert_eq!(s.max_query_size, 0);
    assert_eq!(s.total_query_size, 0);
    assert!(s.status_codes.sorted_counts().is_empty());
    let empty_channels = summarize(vec![vec![], vec![]]);
    assert_eq!(empty_channels.request_count, 0);
    assert_eq!(empty_channels.min_duration, 0);
}

#[test]
fn figures_over_mixed_outcomes() {
    let s = summarize(vec![
        vec![outcome(200, 10, 30 * MS), outcome(404, 0, 10 * MS)],
        vec![outcome(200, 25, 20 * MS), outcome(500, 7, 45 * MS)],
    ]);
    assert_eq!(s.request_count, 4);
    assert_eq!(s.min_duration, 10 * MS);
    assert_eq!(s.max_duration, 45 * MS);
    assert_eq!(s.total_duration, 105 * MS as u128);
    assert_eq!(s.avg_duration, 26_250_000);
    assert_eq!(s.min_query_size, 0);
    assert_eq!(s.max_query_size, 25);
    assert_eq!(s.total_query_size, 42);
    assert_eq!(s.avg_query_size, 10);
    assert_eq!(
        s.status_codes.sorted_counts(),
        vec![(200u16, 2u64), (404, 1), (500, 1)]
    );
    assert_eq!(s.status_codes.get(200), 2);
    assert_eq!(s.status_codes.get(302), 0);
}

#[test]
fn mean_rounds_down() {
    let s = summarize(vec![vec![outcome(200, 1, 1), outcome(200, 2, 2)]]);
    assert_eq!(s.avg_duration, 1);
    assert_eq!(s.avg_query_size, 1);
}

#[test]
fn order_of_channels_and_outcomes_is_irrelevant() {
    let a = summarize(vec![
        vec![outcome(201, 5, 3), outcome(503, 9, 8)],
        vec![outcome(200, 1, 4)],
    ]);
    let b = summarize(vec![
        vec![outcome(200, 1, 4)],
        vec![outcome(503, 9, 8), outcome(201, 5, 3)],
    ]);
    let c = summarize(vec![vec![outcome(503, 9, 8), outcome(200, 1, 4), outcome(201, 5, 3)]]);
    for s in [&b, &c] {
        assert_eq!(a.request_count, s.request_count);
        assert_eq!(a.avg_duration, s.avg_duration);
        assert_eq!(a.min_duration, s.min_duration);
        assert_eq!(a.max_duration, s.max_duration);
        assert_eq!(a.total_duration, s.total_duration);
        assert_eq!(a.avg_query_size, s.avg_query_size);
        assert_eq!(a.min_query_size, s.min_query_size);
        assert_eq!(a.max_query_size, s.max_query_size);
        assert_eq!(a.total_query_size, s.total_query_size);
        assert_eq!(a.status_codes.sorted_counts(), s.status_codes.sorted_counts());
    }
}

#[test]
fn streaming_matches_direct_computation() {
    let durations = [7u64, 3, 9, 3, 12, 5];
    let sizes = [100u64, 0, 40, 40, 7, 300];
    let statuses = [200u16, 404, 200, 301, 200, 404];
    let mut acc = StatAccumulator::new();
    for i in 0..durations.len() {
        acc.record(&outcome(statuses[i], sizes[i], durations[i]));
    }
    assert_eq!(acc.len(), 6);
    let s = acc.summary();
    assert_eq!(s.min_duration, *durations.iter().min().unwrap());
    assert_eq!(s.max_duration, *durations.iter().max().unwrap());
    assert_eq!(s.total_duration, durations.iter().sum::<u64>() as u128);
    assert_eq!(s.avg_duration, durations.iter().sum::<u64>() / 6);
    assert_eq!(s.min_query_size, *sizes.iter().min().unwrap());
    assert_eq!(s.max_query_size, *sizes.iter().max().unwrap());
    assert_eq!(s.avg_query_size, sizes.iter().sum::<u64>() / 6);
    for code in [200u16, 301, 404, 500] {
        let n = statuses.iter().filter(|&&c| c == code).count() as u64;
        assert_eq!(s.status_codes.get(code), n);
    }
    assert_eq!(
        s.status_codes.sorted_counts(),
        vec![(200u16, 3u64), (301, 1), (404, 2)]
    );
}

#[test]
fn extreme_values_do_not_overflow() {
    let s = summarize(vec![vec![outcome(200, u64::MAX, u64::MAX), outcome(200, u64::MAX, u64::MAX)]]);
    assert_eq!(s.total_duration, 2 * u64::MAX as u128);
    assert_eq!(s.avg_duration, u64::MAX);
    assert_eq!(s.total_query_size, 2 * u64::MAX as u128);
    assert_eq!(s.avg_query_size, u64::MAX);
}

#[test]
fn error_classes() {
    assert!(!status_is_error(200));
    assert!(!status_is_error(304));
    assert!(!status_is_error(399));
    assert!(status_is_error(400));
    assert!(status_is_error(404));
    assert!(status_is_error(599));
    assert!(!status_is_error(600));
}

#[test]
fn outcome_record_fields() {
    let ok = RequestStat::new("HTTP/2.0".to_string(), "https://a/".to_string(), 204, None);
    assert!(ok.success);
    assert_eq!(ok.size, 0);
    assert_eq!(ok.duration, 0);
    let failed = RequestStat::new("HTTP/1.1".to_string(), "https://b/".to_string(), 503, Some(12));
    assert!(!failed.success);
    assert_eq!(failed.size, 12);
    let timed = failed.with_duration(42);
    assert_eq!(timed.duration, 42);
    assert_eq!(timed.status, 503);
    assert_eq!(timed.size, 12);
    assert_eq!(timed.proto, "HTTP/1.1");
    assert_eq!(timed.url, "https://b/");
    assert!(!timed.success);
}
