use ping_monitor::circle_color::{CircleColor, Rgb};
use ping_monitor::config::AppConfig;
use ping_monitor::monitor::{PingMonitorApp, ProbeAction};
use ping_monitor::ping::PingResult;

fn test_app(target: &str) -> PingMonitorApp {
    PingMonitorApp::new(AppConfig {
        target: target.to_string(),
        green_threshold: 100,
        yellow_threshold: 200,
    })
}

#[test]
fn default_app_is_idle_with_default_config() {
    let app = PingMonitorApp::default();
    assert_eq!(app.target, "8.8.8.8".to_string());
    assert_eq!(app.green_threshold, 100);
    assert_eq!(app.yellow_threshold, 200);
    assert!(!app.is_monitoring);
    assert_eq!(app.circles.len(), 12);
    assert!(app
        .circles
        .iter()
        .all(|c| matches!(c, CircleColor::Gray)));
    assert!(app.circle_timestamps.iter().all(|t| t.is_none()));
    assert!(app.pending_pings.iter().all(|p| p.is_none()));
    assert_eq!(app.ping_results.len(), 0);
    assert_eq!(app.last_ping_second, None);
    assert_eq!(app.last_response_time, None);
}

#[test]
fn slot_index_five_second_spans() {
    assert_eq!(PingMonitorApp::get_circle_index_for_time(0), 0);
    assert_eq!(PingMonitorApp::get_circle_index_for_time(4_999), 0);
    assert_eq!(PingMonitorApp::get_circle_index_for_time(5_000), 1);
    assert_eq!(PingMonitorApp::get_circle_index_for_time(15_000), 3);
    assert_eq!(PingMonitorApp::get_circle_index_for_time(59_999), 11);
    assert_eq!(PingMonitorApp::get_circle_index_for_time(60_000), 0);
}

#[test]
fn slot_index_is_periodic_in_minutes() {
    for &t in &[0u64, 1_234_567, 59_999, 60_000, 86_399_000] {
        assert_eq!(
            PingMonitorApp::get_circle_index_for_time(t),
            PingMonitorApp::get_circle_index_for_time(t + 60_000)
        );
    }
}

#[test]
fn delivered_results_classify_their_slot() {
    // Timestamp 15_000 falls in slot 3.
    let mut app = test_app("8.8.8.8");
    let now = 16_000;

    app.tick(vec![PingResult::success(15_000, 50, None)], now);
    assert!(matches!(app.circles[3], CircleColor::Green));
    assert_eq!(app.circle_timestamps[3], Some(15_000));
    assert_eq!(app.last_response_time, Some(50));

    app.tick(vec![PingResult::success(15_000, 150, None)], now);
    assert!(matches!(app.circles[3], CircleColor::Yellow));

    app.tick(vec![PingResult::success(15_000, 250, None)], now);
    assert!(matches!(app.circles[3], CircleColor::Orange));

    app.tick(vec![PingResult::failure(15_000)], now);
    assert!(matches!(app.circles[3], CircleColor::Red));
    assert_eq!(app.last_response_time, None);
}

#[test]
fn batch_appends_each_result_once() {
    let mut app = test_app("8.8.8.8");
    let now = 20_000;
    let batch = vec![
        PingResult::success(now, 10, None),
        PingResult::failure(now),
        PingResult::success(now, 30, None),
    ];
    app.tick(batch, now);
    assert_eq!(app.ping_results.len(), 3);
    assert_eq!(app.ping_statistics.total_pings, 3);
    assert_eq!(app.ping_statistics.successful_pings, 2);
    assert_eq!(app.ping_statistics.failed_pings, 1);
    // A later empty drain adds nothing.
    app.tick(Vec::new(), now + 100);
    assert_eq!(app.ping_results.len(), 3);
    assert_eq!(app.ping_statistics.total_pings, 3);
}

#[test]
fn history_is_capped_at_sixty() {
    let mut app = test_app("8.8.8.8");
    let now = 100_000;
    let mut batch = Vec::new();
    for i in 0..61u64 {
        batch.push(PingResult::success(now, i, None));
    }
    app.tick(batch, now);
    assert_eq!(app.ping_results.len(), 60);
    // The oldest result (response time 0) was evicted first.
    assert_eq!(app.ping_results[0].response_time_ms, Some(1));
    assert_eq!(app.ping_results[59].response_time_ms, Some(60));
}

#[test]
fn first_tick_fires_only_on_a_boundary() {
    let mut app = test_app("8.8.8.8");
    app.start_monitoring();
    // 16 s is not a five-second boundary: nothing is due yet.
    assert!(app.tick(Vec::new(), 16_000).is_none());
    // 20 s is: a probe is issued for slot 4.
    let action = app.tick(Vec::new(), 20_000);
    assert!(matches!(action, Some(ProbeAction::Resolve { .. })));
    assert_eq!(app.pending_pings[4], Some(20_000));
    assert_eq!(app.last_ping_second, Some(20));
}

#[test]
fn idle_monitor_issues_no_probe() {
    let mut app = test_app("8.8.8.8");
    assert!(app.tick(Vec::new(), 20_000).is_none());
    assert!(app.pending_pings.iter().all(|p| p.is_none()));
}

#[test]
fn pending_slot_blocks_second_probe() {
    let mut app = test_app("8.8.8.8");
    app.start_monitoring();
    // Slot 3 becomes pending.
    assert!(app.tick(Vec::new(), 15_000).is_some());
    assert_eq!(app.pending_pings[3], Some(15_000));
    // Force another due tick that lands on slot 3 again: still pending, so
    // no new probe may be issued.
    app.last_ping_second = None;
    assert!(app.tick(Vec::new(), 15_000).is_none());
    assert_eq!(app.pending_pings[3], Some(15_000));
}

#[test]
fn pending_slot_frees_after_result() {
    let mut app = test_app("8.8.8.8");
    app.start_monitoring();
    assert!(app.tick(Vec::new(), 15_000).is_some());
    assert_eq!(app.pending_pings[3], Some(15_000));
    // A delivered result whose issuance timestamp falls in slot 3 clears
    // the pending entry; the next due tick for slot 3 may probe again.
    app.last_ping_second = None;
    let action = app.tick(vec![PingResult::success(15_000, 20, None)], 15_000);
    assert!(action.is_some());
    assert_eq!(app.pending_pings[3], Some(15_000));
}

#[test]
fn pending_slot_frees_after_timeout() {
    let mut app = test_app("8.8.8.8");
    app.start_monitoring();
    assert!(app.tick(Vec::new(), 15_000).is_some());
    assert_eq!(app.pending_pings[3], Some(15_000));
    // One minute later the same slot comes due again; the stale entry is
    // over ten seconds old and has been abandoned, so a probe is issued.
    let action = app.tick(Vec::new(), 75_000);
    assert!(action.is_some());
    assert_eq!(app.pending_pings[3], Some(75_000));
}

#[test]
fn pending_entry_under_timeout_is_kept() {
    let mut app = test_app("8.8.8.8");
    app.start_monitoring();
    assert!(app.tick(Vec::new(), 15_000).is_some());
    // 9.999 s later the entry is still honored.
    app.tick(Vec::new(), 24_999);
    assert_eq!(app.pending_pings[3], Some(15_000));
    // At 10 s it is abandoned.
    app.tick(Vec::new(), 25_000);
    assert_eq!(app.pending_pings[3], None);
}

#[test]
fn resolved_hostname_populates_cache_and_later_probes_use_it() {
    let mut app = test_app("myhost");
    app.start_monitoring();
    // No cache entry yet: the first due tick asks for resolution.
    let action = app.tick(Vec::new(), 15_000);
    match action {
        Some(ProbeAction::Resolve { target }) => assert_eq!(target, "myhost".to_string()),
        other => panic!("expected a resolution request, got {other:?}",),
    }
    // The probe comes back carrying the resolved address pair.
    let result = PingResult::success(15_000, 30, Some(("myhost".to_string(), "1.2.3.4".to_string())));
    app.tick(vec![result], 16_000);
    assert_eq!(
        app.dns_cache.get_valid_ip("myhost", 16_000),
        Some("1.2.3.4".to_string())
    );
    // The next due tick probes the cached address directly.
    let action = app.tick(Vec::new(), 20_000);
    match action {
        Some(ProbeAction::ProbeCached { address }) => assert_eq!(address, "1.2.3.4".to_string()),
        other => panic!("expected a cached-address probe, got {other:?}"),
    }
}

#[test]
fn expired_cache_entry_forces_resolution_again() {
    let mut app = test_app("myhost");
    app.start_monitoring();
    let result = PingResult::success(15_000, 30, Some(("myhost".to_string(), "1.2.3.4".to_string())));
    app.tick(vec![result], 15_000);
    // 301 s later the 300 s entry has expired: it is evicted and resolution
    // is requested anew.
    let now = 15_000 + 301_000;
    let action = app.tick(Vec::new(), now);
    assert!(matches!(action, Some(ProbeAction::Resolve { .. })));
    assert!(app.dns_cache.get("myhost").is_none());
}

#[test]
fn literal_address_pair_is_not_cached() {
    let mut app = test_app("5.6.7.8");
    // The hostname equals the address text: the pair names no real
    // hostname and must not be cached.
    let result = PingResult::success(15_000, 30, Some(("5.6.7.8".to_string(), "5.6.7.8".to_string())));
    app.tick(vec![result], 15_000);
    assert!(app.dns_cache.get("5.6.7.8").is_none());
}

#[test]
fn start_monitoring_resets_boundary_marker() {
    let mut app = test_app("8.8.8.8");
    app.start_monitoring();
    assert!(app.is_monitoring);
    assert!(app.tick(Vec::new(), 20_000).is_some());
    assert_eq!(app.last_ping_second, Some(20));
    app.stop_monitoring();
    assert!(!app.is_monitoring);
    // While stopped, no probe is issued even on a boundary.
    assert!(app.tick(Vec::new(), 25_000).is_none());
    // Restarting clears the marker so the next boundary tick fires at once.
    app.start_monitoring();
    assert_eq!(app.last_ping_second, None);
    assert!(app.tick(Vec::new(), 25_000).is_some());
}

#[test]
fn same_boundary_fires_only_once() {
    let mut app = test_app("8.8.8.8");
    app.start_monitoring();
    assert!(app.tick(Vec::new(), 20_000).is_some());
    // Later polls within the same five-second span issue nothing.
    assert!(app.tick(Vec::new(), 20_100).is_none());
    assert!(app.tick(Vec::new(), 24_900).is_none());
    // The next boundary fires again.
    assert!(app.tick(Vec::new(), 25_000).is_some());
}

#[test]
fn snapshot_accessors_reflect_state() {
    let mut app = test_app("8.8.8.8");
    app.start_monitoring();
    app.tick(Vec::new(), 15_000);
    assert!(app.is_pending(3));
    assert!(!app.is_pending(4));
    // Slot 3 has never been painted: it renders as its base gray.
    assert_eq!(app.circle_rgb(3, 15_000), Rgb { r: 160, g: 160, b: 160 });
    let result = PingResult::success(15_000, 20, None);
    app.tick(vec![result], 16_000);
    assert!(!app.is_pending(3));
    // Freshly painted green, not yet faded.
    assert_eq!(app.circle_rgb(3, 16_000), Rgb { r: 0, g: 255, b: 0 });
    // Fully aged: plain gray again.
    assert_eq!(
        app.circle_rgb(3, 16_000 + 55_000),
        Rgb { r: 160, g: 160, b: 160 }
    );
}

#[test]
fn setters_replace_configuration() {
    let mut app = test_app("8.8.8.8");
    app.set_target("example.com".to_string());
    app.set_thresholds(50, 150);
    assert_eq!(app.target, "example.com".to_string());
    assert_eq!(app.green_threshold, 50);
    assert_eq!(app.yellow_threshold, 150);
    // The new thresholds govern classification at once.
    app.tick(vec![PingResult::success(15_000, 100, None)], 15_000);
    assert!(matches!(app.circles[3], CircleColor::Yellow));
}

#[test]
fn default_config_values() {
    let config = AppConfig::default();
    assert_eq!(config.target, "8.8.8.8".to_string());
    assert_eq!(config.green_threshold, 100);
    assert_eq!(config.yellow_threshold, 200);
}
