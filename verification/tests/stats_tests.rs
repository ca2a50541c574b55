use ping_monitor::ping::{PingResult, PingStatistics};

#[test]
fn empty_history_gives_zero_rates() {
    let history: Vec<PingResult> = Vec::new();
    let s = PingStatistics::recompute(&history, 1_000_000);
    assert_eq!(s.total_pings, 0);
    assert_eq!(s.successful_pings, 0);
    assert_eq!(s.failed_pings, 0);
    assert_eq!(s.loss_rate_hundredths, 0);
    assert_eq!(s.mean_response_time_ms, 0);
    assert_eq!(s.total_response_time_ms, 0);
}

#[test]
fn three_failures_of_ten_is_thirty_percent_loss() {
    let now = 1_000_000u64;
    let mut history: Vec<PingResult> = Vec::new();
    for i in 0..7u64 {
        history.push(PingResult::success(now - 1_000 * i, 100, None));
    }
    for i in 7..10u64 {
        history.push(PingResult::failure(now - 1_000 * i));
    }
    let s = PingStatistics::recompute(&history, now);
    assert_eq!(s.total_pings, 10);
    assert_eq!(s.successful_pings, 7);
    assert_eq!(s.failed_pings, 3);
    // 3 / 10 = 30.00 %, held in hundredths of a percent.
    assert_eq!(s.loss_rate_hundredths, 3000);
}

#[test]
fn mean_is_over_successes_only() {
    let now = 500_000u64;
    let history = vec![
        PingResult::success(now, 100, None),
        PingResult::success(now - 1, 200, None),
        PingResult::failure(now - 2),
    ];
    let s = PingStatistics::recompute(&history, now);
    assert_eq!(s.total_pings, 3);
    assert_eq!(s.successful_pings, 2);
    assert_eq!(s.failed_pings, 1);
    assert_eq!(s.total_response_time_ms, 300);
    assert_eq!(s.mean_response_time_ms, 150);
    // 1 / 3 rounded down in hundredths of a percent.
    assert_eq!(s.loss_rate_hundredths, 3333);
}

#[test]
fn window_excludes_old_results() {
    let now = 1_000_000u64;
    let history = vec![
        // Exactly 60 s old: still inside the window.
        PingResult::success(now - 60_000, 10, None),
        // Just over 60 s old: outside.
        PingResult::success(now - 60_001, 999, None),
        PingResult::failure(now - 100_000),
        PingResult::success(now, 30, None),
    ];
    let s = PingStatistics::recompute(&history, now);
    assert_eq!(s.total_pings, 2);
    assert_eq!(s.successful_pings, 2);
    assert_eq!(s.failed_pings, 0);
    assert_eq!(s.total_response_time_ms, 40);
    assert_eq!(s.mean_response_time_ms, 20);
    assert_eq!(s.loss_rate_hundredths, 0);
}

#[test]
fn timestamps_in_the_future_stay_in_window() {
    let now = 10_000u64;
    let history = vec![PingResult::success(now + 5_000, 42, None)];
    let s = PingStatistics::recompute(&history, now);
    assert_eq!(s.total_pings, 1);
    assert_eq!(s.mean_response_time_ms, 42);
}

#[test]
fn default_statistics_are_zero() {
    let s = PingStatistics::default();
    assert_eq!(s.total_pings, 0);
    assert_eq!(s.successful_pings, 0);
    assert_eq!(s.failed_pings, 0);
    assert_eq!(s.total_response_time_ms, 0);
    assert_eq!(s.loss_rate_hundredths, 0);
    assert_eq!(s.mean_response_time_ms, 0);
}
