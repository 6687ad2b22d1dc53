use oqto::agent_service::{RuntimeMode, Session};
use oqto::proxy::{
    cors_policy, event_stream_retry_policy, forward_failure_status, is_header_value,
    mmry_memory_path, mmry_target, next_retry, port_target_uri, terminal_retry_policy,
    url_target_uri, CorsPolicy, MmryState, RetryStep,
};

fn session(mmry: Option<i64>) -> Session {
    Session {
        id: "s".to_string(),
        container_id: None,
        workspace_path: "/w".to_string(),
        opencode_port: 1,
        agent_base_port: None,
        max_agents: None,
        runtime_mode: RuntimeMode::Container,
        persona_path: None,
        mmry_port: mmry,
    }
}

#[test]
fn forwarding_addresses() {
    assert_eq!(port_target_uri(8080, "api/x", ""), "http://localhost:8080/api/x");
    assert_eq!(port_target_uri(8080, "api/x", "a=1"), "http://localhost:8080/api/x?a=1");
    assert_eq!(url_target_uri("http://h:1//", "v1/search", "q=z"), "http://h:1/v1/search?q=z");
    assert_eq!(mmry_memory_path("m1"), "v1/memories/m1");
}

#[test]
fn memory_service_target() {
    let off = MmryState::default();
    assert_eq!(mmry_target(&off, &session(Some(9))).unwrap_err(), 404);
    let single = MmryState { enabled: true, ..MmryState::default() };
    assert_eq!(mmry_target(&single, &session(None)).unwrap(), "http://localhost:8081");
    let multi = MmryState { enabled: true, single_user: false, local_service_url: String::new() };
    assert_eq!(mmry_target(&multi, &session(Some(48123))).unwrap(), "http://localhost:48123");
    assert_eq!(mmry_target(&multi, &session(None)).unwrap_err(), 404);
}

#[test]
fn failure_statuses_and_retries() {
    assert_eq!(forward_failure_status(true, true), 503);
    assert_eq!(forward_failure_status(true, false), 502);
    assert_eq!(forward_failure_status(false, true), 502);
    let t = terminal_retry_policy();
    assert_eq!(next_retry(t, 1, 0, false), RetryStep::Wait(100));
    assert_eq!(next_retry(t, 35, 59_999, false), RetryStep::Wait(2000));
    assert_eq!(next_retry(t, 2, 60_000, true), RetryStep::GiveUp);
    let e = event_stream_retry_policy();
    assert_eq!(next_retry(e, 3, 100, true), RetryStep::Wait(300));
    assert_eq!(next_retry(e, 3, 100, false), RetryStep::GiveUp);
}

#[test]
fn cross_origin_policy() {
    assert!(matches!(cors_policy(&vec![], false), CorsPolicy::DenyAll));
    match cors_policy(&vec![], true) {
        CorsPolicy::Allow(o) => assert_eq!(o.len(), 6),
        CorsPolicy::DenyAll => panic!("dev mode allows local origins"),
    }
    match cors_policy(&vec!["https://app.example".to_string(), "bad\u{1}origin".to_string()], false) {
        CorsPolicy::Allow(o) => assert_eq!(o, vec!["https://app.example".to_string()]),
        CorsPolicy::DenyAll => panic!("valid origin configured"),
    }
    assert!(matches!(cors_policy(&vec!["bad\u{7f}".to_string()], false), CorsPolicy::DenyAll));
    match cors_policy(&vec!["http://localhost:3000".to_string()], true) {
        CorsPolicy::Allow(o) => assert_eq!(
            o,
            vec![
                "http://localhost:3000".to_string(),
                "http://localhost:3001".to_string(),
                "http://127.0.0.1:3000".to_string(),
                "http://127.0.0.1:3001".to_string()
            ]
        ),
        CorsPolicy::DenyAll => panic!("dev mode"),
    }
    assert!(is_header_value("tab\there é"));
    assert!(!is_header_value("nl\n"));
}
