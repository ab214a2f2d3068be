use screentime::capture::{
    effective_grayscale, effective_target_width, retry_decision, retry_delay_after,
    run_retry_trace, screenshot_path, tick_decision, CaptureSupervisor, RetryDecision,
    TickAction, MAX_RETRIES,
};
use screentime::config::Config;
use screentime::protocol::ServiceController;
use screentime::state::ServiceStateManager;

fn test_config() -> Config {
    Config {
        api_key: None,
        api_url: "https://example.invalid/v1".to_string(),
        model: "test-model".to_string(),
        prompt: "describe".to_string(),
        interval: 60,
        data_dir: "/tmp/screentime-test".to_string(),
        state_path: None,
        socket_path: None,
        image_target_width: 1440,
        image_grayscale: true,
        no_image_grayscale: false,
        fastvlm_model_dir: None,
    }
}

#[test]
fn exhausted_retries_follow_the_schedule() {
    // The analysis collaborator fails every attempt.
    let outcomes = vec![false; MAX_RETRIES as usize];
    let trace = run_retry_trace(&outcomes);
    assert_eq!(trace.attempts, MAX_RETRIES);
    assert!(!trace.succeeded);
    assert_eq!(trace.delays, vec![5, 15, 30, 45]);
}

#[test]
fn a_late_success_stops_the_retries() {
    let outcomes = vec![false, false, true, false, false];
    let trace = run_retry_trace(&outcomes);
    assert_eq!(trace.attempts, 3);
    assert!(trace.succeeded);
    assert_eq!(trace.delays, vec![5, 15]);
}

#[test]
fn an_immediate_success_needs_one_attempt() {
    let outcomes = vec![true, false, false, false, false];
    let trace = run_retry_trace(&outcomes);
    assert_eq!(trace.attempts, 1);
    assert!(trace.succeeded);
    assert!(trace.delays.is_empty());
}

#[test]
fn retry_decisions_respect_the_budget() {
    assert_eq!(retry_decision(1, true), RetryDecision::Done);
    assert_eq!(retry_decision(1, false), RetryDecision::RetryAfter { delay_secs: 5 });
    assert_eq!(retry_decision(4, false), RetryDecision::RetryAfter { delay_secs: 45 });
    assert_eq!(retry_decision(MAX_RETRIES, false), RetryDecision::GiveUp);
}

#[test]
fn the_delay_schedule_never_decreases() {
    for a in 1..MAX_RETRIES {
        assert!(retry_delay_after(a) <= retry_delay_after(a + 1));
    }
}

#[test]
fn ticks_run_only_while_the_service_runs() {
    let mut mgr = ServiceStateManager::new(None, "fp".to_string(), 0);
    assert_eq!(tick_decision(&mgr), TickAction::ExitLoop);
    mgr.start_service(1);
    assert_eq!(tick_decision(&mgr), TickAction::RunCycle);
    mgr.stop_service(2);
    assert_eq!(tick_decision(&mgr), TickAction::ExitLoop);
}

#[test]
fn the_supervisor_holds_at_most_one_task() {
    let mut sup = CaptureSupervisor::new();
    assert!(!sup.on_start());
    assert!(sup.on_start());
    assert!(sup.on_stop());
    assert!(!sup.on_stop());
}

#[test]
fn cycle_parameters_come_from_the_config() {
    let mut cfg = test_config();
    assert_eq!(effective_target_width(&cfg), Some(1440));
    assert!(effective_grayscale(&cfg));
    cfg.image_target_width = 0;
    cfg.no_image_grayscale = true;
    assert_eq!(effective_target_width(&cfg), None);
    assert!(!effective_grayscale(&cfg));
}

#[test]
fn screenshot_paths_are_stamped() {
    let cfg = test_config();
    assert_eq!(
        screenshot_path(&cfg, "20240501_120000"),
        "/tmp/screentime-test/screenshots/screenshot_20240501_120000.png"
    );
}

#[test]
fn config_paths_hang_under_the_data_dir() {
    let cfg = test_config();
    assert_eq!(cfg.get_data_dir(), "/tmp/screentime-test");
    assert_eq!(cfg.get_screenshot_dir(), "/tmp/screentime-test/screenshots");
    assert_eq!(cfg.get_logs_dir(), "/tmp/screentime-test/logs");
    assert_eq!(
        cfg.get_daily_log_path("2024-05-01"),
        "/tmp/screentime-test/logs/2024-05-01.json"
    );
    assert_eq!(cfg.get_state_path(), "/tmp/screentime-test/service_state.json");
    assert_eq!(cfg.get_socket_path(), "/tmp/screentime-test/service.sock");
    let mut with_overrides = test_config();
    with_overrides.state_path = Some("/elsewhere/state".to_string());
    with_overrides.socket_path = Some("/elsewhere/sock".to_string());
    assert_eq!(with_overrides.get_state_path(), "/elsewhere/state");
    assert_eq!(with_overrides.get_socket_path(), "/elsewhere/sock");
}

#[test]
fn fastvlm_settings_follow_the_resolved_directory() {
    let mut cfg = test_config();
    assert!(!cfg.is_using_fastvlm());
    assert!(cfg.get_fastvlm_model_dir().is_none());
    cfg.fastvlm_model_dir = Some("/models/fastvlm".to_string());
    assert!(cfg.is_using_fastvlm());
    assert_eq!(cfg.get_fastvlm_model_dir().map(|s| s.as_str()), Some("/models/fastvlm"));
}

#[test]
fn the_fingerprint_tracks_the_settings() {
    let a = test_config();
    let b = test_config();
    assert_eq!(a.get_config_hash(), b.get_config_hash());
    let mut c = test_config();
    c.interval = 61;
    assert_ne!(a.get_config_hash(), c.get_config_hash());
    let mut d = test_config();
    d.model = "other-model".to_string();
    assert_ne!(a.get_config_hash(), d.get_config_hash());
    // The API key is not an operational setting and does not move the hash.
    let mut e = test_config();
    e.api_key = Some("SECRET-REDACTED".to_string());
    assert_eq!(a.get_config_hash(), e.get_config_hash());
}

#[test]
fn the_controller_remembers_the_socket_path() {
    let cfg = test_config();
    let ctl = ServiceController::new(&cfg);
    assert_eq!(ctl.socket_path, "/tmp/screentime-test/service.sock");
}
