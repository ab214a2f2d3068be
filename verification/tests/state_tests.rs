use screentime::codec::{encode_state, parse_state};
use screentime::state::{CaptureServiceState, CaptureServiceStatus, ServiceStateManager};

fn default_state(fp: &str) -> CaptureServiceState {
    CaptureServiceState {
        status: CaptureServiceStatus::Stopped,
        last_start_time: None,
        last_stop_time: None,
        total_captures: 0,
        last_capture_time: None,
        config_fingerprint: fp.to_string(),
    }
}

#[test]
fn start_service_is_idempotent() {
    let mut mgr = ServiceStateManager::new(None, "fp".to_string(), 10);
    assert!(mgr.start_service(100));
    assert!(matches!(mgr.get_state().status, CaptureServiceStatus::Running));
    assert!(!mgr.start_service(200));
    let s = mgr.get_state();
    assert!(matches!(s.status, CaptureServiceStatus::Running));
    assert_eq!(s.last_start_time, Some(100));
}

#[test]
fn stop_service_is_idempotent() {
    let mut mgr = ServiceStateManager::new(None, "fp".to_string(), 10);
    assert!(mgr.start_service(100));
    assert!(mgr.stop_service(150));
    assert!(matches!(mgr.get_state().status, CaptureServiceStatus::Stopped));
    assert!(!mgr.stop_service(160));
    let s = mgr.get_state();
    assert!(matches!(s.status, CaptureServiceStatus::Stopped));
    assert_eq!(s.last_stop_time, Some(150));
}

#[test]
fn mismatched_fingerprint_forces_stopped() {
    let loaded = CaptureServiceState {
        status: CaptureServiceStatus::Running,
        last_start_time: Some(5),
        last_stop_time: None,
        total_captures: 7,
        last_capture_time: Some(6),
        config_fingerprint: "old".to_string(),
    };
    let mgr = ServiceStateManager::new(Some(loaded), "new".to_string(), 99);
    let s = mgr.get_state();
    assert!(matches!(s.status, CaptureServiceStatus::Stopped));
    assert_eq!(s.total_captures, 7);
    assert_eq!(s.config_fingerprint, "new");
    assert_eq!(s.last_stop_time, Some(99));
    assert_eq!(s.last_start_time, Some(5));
}

#[test]
fn mismatched_fingerprint_on_stopped_record_keeps_stop_time() {
    let loaded = CaptureServiceState {
        status: CaptureServiceStatus::Stopped,
        last_start_time: Some(5),
        last_stop_time: Some(8),
        total_captures: 3,
        last_capture_time: None,
        config_fingerprint: "old".to_string(),
    };
    let mgr = ServiceStateManager::new(Some(loaded), "new".to_string(), 99);
    let s = mgr.get_state();
    assert!(matches!(s.status, CaptureServiceStatus::Stopped));
    assert_eq!(s.last_stop_time, Some(8));
    assert_eq!(s.total_captures, 3);
}

#[test]
fn matching_fingerprint_keeps_record() {
    let loaded = CaptureServiceState {
        status: CaptureServiceStatus::Running,
        last_start_time: Some(5),
        last_stop_time: None,
        total_captures: 7,
        last_capture_time: Some(6),
        config_fingerprint: "same".to_string(),
    };
    let mgr = ServiceStateManager::new(Some(loaded), "same".to_string(), 99);
    let s = mgr.get_state();
    assert!(matches!(s.status, CaptureServiceStatus::Running));
    assert_eq!(s.total_captures, 7);
    assert_eq!(s.last_start_time, Some(5));
}

#[test]
fn increments_raise_counter_by_exactly_n() {
    let mut mgr = ServiceStateManager::new(None, "fp".to_string(), 0);
    mgr.increment_capture_count(10);
    mgr.increment_capture_count(20);
    mgr.increment_capture_count(30);
    let s = mgr.get_state();
    assert_eq!(s.total_captures, 3);
    assert_eq!(s.last_capture_time, Some(30));
}

#[test]
fn should_capture_follows_status() {
    let mut mgr = ServiceStateManager::new(None, "fp".to_string(), 0);
    assert!(!mgr.should_capture());
    mgr.start_service(1);
    assert!(mgr.should_capture());
    mgr.stop_service(2);
    assert!(!mgr.should_capture());
}

#[test]
fn first_run_document_reflects_start() {
    // No state file exists; the configured fingerprint is "abc123".
    let mut mgr = ServiceStateManager::new(None, "abc123".to_string(), 1000);
    assert!(mgr.start_service(1234));
    let doc = encode_state(&mgr.get_state());
    let persisted = parse_state(&doc).expect("the persisted document parses");
    assert!(matches!(persisted.status, CaptureServiceStatus::Running));
    assert_eq!(persisted.last_start_time, Some(1234));
    assert_eq!(persisted.config_fingerprint, "abc123");
    assert_eq!(persisted.total_captures, 0);
    let again = mgr.get_state();
    assert!(matches!(again.status, CaptureServiceStatus::Running));
    assert_eq!(again.last_start_time, Some(1234));
    assert_eq!(again.config_fingerprint, "abc123");
    assert_eq!(again.total_captures, 0);
}

#[test]
fn state_document_round_trips() {
    let s = CaptureServiceState {
        status: CaptureServiceStatus::Running,
        last_start_time: Some(17),
        last_stop_time: None,
        total_captures: 12345678901234567890,
        last_capture_time: Some(u64::MAX),
        config_fingerprint: "fp with spaces\nand a newline".to_string(),
    };
    let doc = encode_state(&s);
    let back = parse_state(&doc).expect("round trip parses");
    assert_eq!(back, s);
}

#[test]
fn default_state_document_round_trips() {
    let s = default_state("");
    let doc = encode_state(&s);
    let back = parse_state(&doc).expect("round trip parses");
    assert_eq!(back, s);
}

#[test]
fn state_document_is_readable_bytes() {
    let s = default_state("abc");
    let doc = encode_state(&s);
    let text = String::from_utf8(doc).expect("document is valid text");
    assert_eq!(text, "s 0\na -\no -\nc 0\nl -\nf 3 abc\n");
}

#[test]
fn garbage_documents_are_rejected() {
    assert!(parse_state(&Vec::new()).is_none());
    assert!(parse_state(&b"nonsense".to_vec()).is_none());
    let s = default_state("abc");
    let mut doc = encode_state(&s);
    doc.pop();
    assert!(parse_state(&doc).is_none());
    let mut doc2 = encode_state(&s);
    doc2.push(b'x');
    assert!(parse_state(&doc2).is_none());
}

#[test]
fn an_oversized_counter_is_rejected() {
    // One digit past the largest representable counter value.
    let doc = b"s 0\na -\no -\nc 99999999999999999999\nl -\nf 0 \n".to_vec();
    assert!(parse_state(&doc).is_none());
    let max_doc = b"s 0\na -\no -\nc 18446744073709551615\nl -\nf 0 \n".to_vec();
    let parsed = parse_state(&max_doc).expect("the largest counter parses");
    assert_eq!(parsed.total_captures, u64::MAX);
}
