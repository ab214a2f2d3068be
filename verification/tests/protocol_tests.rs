use screentime::protocol::{
    dispatch_command, encode_command, encode_response, invalid_command_response, parse_command,
    parse_response, ServiceCommand, ServiceResponse, SupervisorAction,
};
use screentime::state::{CaptureServiceStatus, ServiceStateManager};

#[test]
fn commands_decode_from_their_wire_form() {
    assert_eq!(parse_command(&b"\"Start\"".to_vec()), Some(ServiceCommand::Start));
    assert_eq!(parse_command(&b"\"Stop\"".to_vec()), Some(ServiceCommand::Stop));
    assert_eq!(parse_command(&b"\"Status\"".to_vec()), Some(ServiceCommand::Status));
}

#[test]
fn commands_decode_with_surrounding_whitespace() {
    assert_eq!(parse_command(&b"  \"Start\"\n".to_vec()), Some(ServiceCommand::Start));
    assert_eq!(parse_command(&b"\t\"Status\" \r\n".to_vec()), Some(ServiceCommand::Status));
}

#[test]
fn malformed_commands_are_rejected()
{
    assert!(parse_command(&Vec::new()).is_none());
    assert!(parse_command(&b"Start".to_vec()).is_none());
    assert!(parse_command(&b"\"Restart\"".to_vec()).is_none());
    assert!(parse_command(&b"\"Start\" extra".to_vec()).is_none());
    assert!(parse_command(&b"\"start\"".to_vec()).is_none());
    assert!(parse_command(&b"\"Star".to_vec()).is_none());
}

#[test]
fn encoded_commands_parse_back() {
    for cmd in [ServiceCommand::Start, ServiceCommand::Stop, ServiceCommand::Status] {
        let wire = encode_command(&cmd);
        assert_eq!(parse_command(&wire), Some(cmd));
    }
}

#[test]
fn start_command_starts_and_spawns() {
    let mut mgr = ServiceStateManager::new(None, "fp".to_string(), 0);
    let (resp, action) = dispatch_command(&ServiceCommand::Start, &mut mgr, 50);
    assert!(resp.success);
    assert_eq!(resp.message, "service started");
    assert_eq!(action, SupervisorAction::SpawnCaptureLoop);
    let st = resp.state.expect("reply carries a snapshot");
    assert!(matches!(st.status, CaptureServiceStatus::Running));
    assert_eq!(st.last_start_time, Some(50));

    let (resp2, action2) = dispatch_command(&ServiceCommand::Start, &mut mgr, 60);
    assert!(resp2.success);
    assert_eq!(resp2.message, "service already running");
    assert_eq!(action2, SupervisorAction::NoChange);
}

#[test]
fn stop_command_stops_and_aborts() {
    let mut mgr = ServiceStateManager::new(None, "fp".to_string(), 0);
    mgr.start_service(10);
    let (resp, action) = dispatch_command(&ServiceCommand::Stop, &mut mgr, 20);
    assert!(resp.success);
    assert_eq!(resp.message, "service stopped");
    assert_eq!(action, SupervisorAction::AbortCaptureLoop);
    let (resp2, action2) = dispatch_command(&ServiceCommand::Stop, &mut mgr, 30);
    assert!(resp2.success);
    assert_eq!(resp2.message, "service already stopped");
    assert_eq!(action2, SupervisorAction::AbortCaptureLoop);
}

#[test]
fn status_reply_reports_capture_total() {
    // The same setup as the first-run scenario: fresh state, fingerprint
    // "abc123", one successful start, no captures yet.
    let mut mgr = ServiceStateManager::new(None, "abc123".to_string(), 1000);
    assert!(mgr.start_service(1234));

    // The client writes a Status command; the server decodes the whole
    // buffer, dispatches, and replies; the client decodes the reply.
    let wire = encode_command(&ServiceCommand::Status);
    let cmd = parse_command(&wire).expect("the server decodes the command");
    let (resp, action) = dispatch_command(&cmd, &mut mgr, 2000);
    assert_eq!(action, SupervisorAction::NoChange);
    let reply_wire = encode_response(&resp);
    let reply = parse_response(&reply_wire).expect("the client decodes the reply");
    assert!(reply.success);
    assert_eq!(reply.message, "status ok");
    let st = reply.state.expect("a Status reply always carries the state");
    assert_eq!(st.total_captures, 0);
    assert!(matches!(st.status, CaptureServiceStatus::Running));
    assert_eq!(st.config_fingerprint, "abc123");
}

#[test]
fn responses_round_trip_with_and_without_state() {
    let mut mgr = ServiceStateManager::new(None, "x".to_string(), 0);
    mgr.increment_capture_count(5);
    let with_state = ServiceResponse {
        success: true,
        message: "all good".to_string(),
        state: Some(mgr.get_state()),
    };
    let wire = encode_response(&with_state);
    let back = parse_response(&wire).expect("parses");
    assert_eq!(back.success, with_state.success);
    assert_eq!(back.message, with_state.message);
    let st = back.state.expect("state present");
    assert_eq!(st.total_captures, 1);
    assert_eq!(st.last_capture_time, Some(5));

    let without = ServiceResponse { success: false, message: String::new(), state: None };
    let wire2 = encode_response(&without);
    let back2 = parse_response(&wire2).expect("parses");
    assert!(!back2.success);
    assert_eq!(back2.message, "");
    assert!(back2.state.is_none());
}

#[test]
fn truncated_responses_are_rejected() {
    let resp = ServiceResponse { success: true, message: "hi".to_string(), state: None };
    let mut wire = encode_response(&resp);
    wire.pop();
    assert!(parse_response(&wire).is_none());
    assert!(parse_response(&Vec::new()).is_none());
}

#[test]
fn invalid_command_reply_is_a_failure() {
    let r = invalid_command_response();
    assert!(!r.success);
    assert_eq!(r.message, "invalid command");
    assert!(r.state.is_none());
}
