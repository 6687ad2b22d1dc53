use oqto::pi_bridge::{
    bridge_health, command_answer, not_running_answer, pi_args, send_failure_answer,
    serialize_failure_answer, PiReply, RequestCounter, WaitOutcome,
};

#[test]
fn agent_command_line() {
    assert_eq!(pi_args(false, &None, &None), vec!["--mode", "rpc"]);
    assert_eq!(
        pi_args(true, &Some("anthropic".to_string()), &Some("m1".to_string())),
        vec!["--mode", "rpc", "--continue", "--provider", "anthropic", "--model", "m1"]
    );
    assert_eq!(pi_args(false, &None, &Some("m1".to_string())), vec!["--mode", "rpc", "--model", "m1"]);
}

#[test]
fn request_ids_count_up() {
    let mut c = RequestCounter::new();
    assert_eq!(c.next_request_id(), "bridge-req-1");
    assert_eq!(c.next_request_id(), "bridge-req-2");
    for _ in 0..8 {
        c.next_request_id();
    }
    assert_eq!(c.next_request_id(), "bridge-req-11");
}

#[test]
fn command_answers() {
    let (s, r) = not_running_answer();
    assert_eq!(s, 503);
    assert!(!r.success);
    assert_eq!(r.error.as_deref(), Some("Pi process not running"));
    let (s, r) = serialize_failure_answer("bad");
    assert_eq!((s, r.error.as_deref()), (400, Some("Failed to serialize command: bad")));
    let (s, r) = send_failure_answer("closed");
    assert_eq!((s, r.error.as_deref()), (500, Some("Failed to send command: closed")));
    let (s, r) = command_answer(WaitOutcome::Replied(PiReply {
        success: Some(true),
        data: Some("{\"x\":1}".to_string()),
        error: None,
    }));
    assert_eq!(s, 200);
    assert!(r.success);
    assert_eq!(r.data.as_deref(), Some("{\"x\":1}"));
    let (s, r) = command_answer(WaitOutcome::Replied(PiReply { success: None, data: None, error: Some("e".to_string()) }));
    assert_eq!(s, 200);
    assert!(!r.success);
    assert_eq!(r.error.as_deref(), Some("e"));
    let (s, r) = command_answer(WaitOutcome::ChannelClosed);
    assert_eq!((s, r.error.as_deref()), (500, Some("Response channel closed")));
    let (s, r) = command_answer(WaitOutcome::TimedOut);
    assert_eq!((s, r.error.as_deref()), (504, Some("Timeout waiting for Pi response")));
}

#[test]
fn health_answer() {
    let h = bridge_health(true);
    assert_eq!(h.status, "ok");
    assert!(h.pi_running);
    assert!(!bridge_health(false).pi_running);
}
