use screentime::tracker::{
    parse_window_query_output, EnhancedWindowInfo, WindowTracker,
};
use screentime::screen::{parse_window_bounds, WindowBounds};

fn sample(app: &str, title: &str, t: u64) -> EnhancedWindowInfo {
    EnhancedWindowInfo {
        app_name: Some(app.to_string()),
        window_title: Some(title.to_string()),
        bounds: None,
        timestamp: t,
        process_id: None,
        is_focus_changed: true,
    }
}

#[test]
fn switch_history_keeps_the_most_recent_hundred() {
    let mut t = WindowTracker::new();
    // 105 focus changes, one second apart (far beyond the cache TTL).
    for i in 0..105u64 {
        let now = 1000 + i * 1000;
        let name = format!("app{}", i);
        t.get_current_window_info(Some(sample(&name, "w", now)), now);
    }
    let history = t.get_switch_history(None);
    assert_eq!(history.len(), 100);
    // The most recent 100 of the 105 events, oldest first by time.
    assert_eq!(history[0].timestamp, 1000 + 5 * 1000);
    assert_eq!(history[99].timestamp, 1000 + 104 * 1000);
    for k in 1..history.len() {
        assert!(history[k - 1].timestamp <= history[k].timestamp);
    }
    assert_eq!(history[0].to_app.as_deref(), Some("app5"));
}

#[test]
fn switch_history_limit_takes_the_newest() {
    let mut t = WindowTracker::new();
    for i in 0..10u64 {
        let now = 1000 + i * 1000;
        let name = format!("app{}", i);
        t.get_current_window_info(Some(sample(&name, "w", now)), now);
    }
    let last3 = t.get_switch_history(Some(3));
    assert_eq!(last3.len(), 3);
    assert_eq!(last3[0].to_app.as_deref(), Some("app7"));
    assert_eq!(last3[2].to_app.as_deref(), Some("app9"));
    let all = t.get_switch_history(Some(50));
    assert_eq!(all.len(), 10);
}

#[test]
fn usage_totals_rank_apps_by_cumulative_time() {
    let mut t = WindowTracker::new();
    // Closed sessions: A for 10 s, B for 5 s, A again for 7 s.
    t.get_current_window_info(Some(sample("A", "w", 1_000)), 1_000);
    t.get_current_window_info(Some(sample("B", "w", 11_000)), 11_000);
    t.get_current_window_info(Some(sample("A", "w", 16_000)), 16_000);
    t.get_current_window_info(Some(sample("C", "w", 23_000)), 23_000);
    let stats = t.get_stats(23_500);
    assert_eq!(stats.most_used_apps.len(), 2);
    assert_eq!(stats.most_used_apps[0].0, "A");
    assert_eq!(stats.most_used_apps[0].1, 17_000);
    assert_eq!(stats.most_used_apps[1].0, "B");
    assert_eq!(stats.most_used_apps[1].1, 5_000);
    assert_eq!(stats.total_switches, 4);
    assert_eq!(stats.last_switch_time, Some(23_000));
    // The C session opened at 23 s is still running.
    assert_eq!(stats.current_session_duration_ms, 500);
}

#[test]
fn ties_keep_first_seen_order() {
    let mut t = WindowTracker::new();
    // B and A each accumulate 5 s; B closed first.
    t.get_current_window_info(Some(sample("B", "w", 1_000)), 1_000);
    t.get_current_window_info(Some(sample("A", "w", 6_000)), 6_000);
    t.get_current_window_info(Some(sample("C", "w", 11_000)), 11_000);
    let stats = t.get_stats(12_000);
    assert_eq!(stats.most_used_apps.len(), 2);
    assert_eq!(stats.most_used_apps[0].0, "B");
    assert_eq!(stats.most_used_apps[1].0, "A");
}

#[test]
fn a_cached_no_data_outcome_is_served_within_the_ttl() {
    let mut t = WindowTracker::new();
    // The query legitimately found nothing; that outcome is cached too.
    t.get_current_window_info(None, 1_000);
    assert!(!t.needs_refresh(1_200));
    // Within the TTL the cached no-data answer is served; nothing changes,
    // even if a sample is offered.
    assert_eq!(t.get_current_window_info(Some(sample("A", "w", 1_200)), 1_200), None);
    assert_eq!(t.get_switch_history(None).len(), 0);
    // Once stale, a fresh query result replaces the cache.
    assert!(t.needs_refresh(1_600));
    t.get_current_window_info(Some(sample("A", "w", 1_600)), 1_600);
    assert_eq!(t.get_switch_history(None).len(), 1);
}

#[test]
fn fresh_cache_answers_without_a_switch() {
    let mut t = WindowTracker::new();
    assert!(t.needs_refresh(1_000));
    t.get_current_window_info(Some(sample("A", "w", 1_000)), 1_000);
    // 200 ms later the cache is still fresh: no query needed, and the
    // tracker must not emit another event even if handed a different sample.
    assert!(!t.needs_refresh(1_200));
    let cached = t.get_current_window_info(None, 1_200);
    assert_eq!(cached.and_then(|w| w.app_name), Some("A".to_string()));
    assert_eq!(t.get_switch_history(None).len(), 1);
    // After the TTL it is stale again.
    assert!(t.needs_refresh(1_600));
}

#[test]
fn unchanged_identity_emits_no_event() {
    let mut t = WindowTracker::new();
    t.get_current_window_info(Some(sample("A", "one", 1_000)), 1_000);
    t.get_current_window_info(Some(sample("A", "one", 2_000)), 2_000);
    assert_eq!(t.get_switch_history(None).len(), 1);
    // A title change alone is a focus change.
    t.get_current_window_info(Some(sample("A", "two", 3_000)), 3_000);
    assert_eq!(t.get_switch_history(None).len(), 2);
}

#[test]
fn switch_events_carry_the_previous_identity_and_duration() {
    let mut t = WindowTracker::new();
    t.get_current_window_info(Some(sample("A", "one", 1_000)), 1_000);
    t.get_current_window_info(Some(sample("B", "two", 4_000)), 4_000);
    let history = t.get_switch_history(None);
    assert_eq!(history.len(), 2);
    let first = &history[0];
    assert_eq!(first.from_app, None);
    assert_eq!(first.to_app.as_deref(), Some("A"));
    assert_eq!(first.duration_ms, 0);
    let second = &history[1];
    assert_eq!(second.from_app.as_deref(), Some("A"));
    assert_eq!(second.to_app.as_deref(), Some("B"));
    assert_eq!(second.from_title.as_deref(), Some("one"));
    assert_eq!(second.to_title.as_deref(), Some("two"));
    assert_eq!(second.timestamp, 4_000);
    assert_eq!(second.duration_ms, 3_000);
}

#[test]
fn query_output_line_parses_into_a_sample() {
    let info = parse_window_query_output("Safari|Docs - Home|421|10, 20|800, 600", 7_000)
        .expect("a full line parses");
    assert_eq!(info.app_name.as_deref(), Some("Safari"));
    assert_eq!(info.window_title.as_deref(), Some("Docs - Home"));
    assert_eq!(info.process_id, Some(421));
    assert_eq!(
        info.bounds,
        Some(WindowBounds { x: 10, y: 20, width: 800, height: 600 })
    );
    assert_eq!(info.timestamp, 7_000);
    assert!(info.is_focus_changed);
}

#[test]
fn query_output_tolerates_missing_fields() {
    let info = parse_window_query_output("Safari||421||", 1).expect("parses");
    assert_eq!(info.app_name.as_deref(), Some("Safari"));
    assert_eq!(info.window_title, None);
    assert_eq!(info.bounds, None);
    let info2 = parse_window_query_output("|t|not-a-pid|1, 2|3, 4", 1).expect("parses");
    assert_eq!(info2.app_name, None);
    assert_eq!(info2.process_id, None);
    assert_eq!(info2.bounds, Some(WindowBounds { x: 1, y: 2, width: 3, height: 4 }));
    assert!(parse_window_query_output("only|three|fields", 1).is_none());
}

#[test]
fn window_bounds_strings_parse() {
    assert_eq!(
        parse_window_bounds("12, 34", "800, 600"),
        Some(WindowBounds { x: 12, y: 34, width: 800, height: 600 })
    );
    assert_eq!(
        parse_window_bounds("-5,-7", " 10 , 20 "),
        Some(WindowBounds { x: -5, y: -7, width: 10, height: 20 })
    );
    assert_eq!(
        parse_window_bounds("+5, +7", "1, 1"),
        Some(WindowBounds { x: 5, y: 7, width: 1, height: 1 })
    );
    // Extra fields beyond the first two are ignored.
    assert_eq!(
        parse_window_bounds("1, 2, 3", "800, 600"),
        Some(WindowBounds { x: 1, y: 2, width: 800, height: 600 })
    );
    assert_eq!(parse_window_bounds("12", "800, 600"), None);
    assert_eq!(parse_window_bounds("a, b", "800, 600"), None);
    assert_eq!(parse_window_bounds("99999999999, 0", "1, 1"), None);
}
