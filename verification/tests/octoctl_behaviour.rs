use oqto::octoctl::{
    docker_build_args, refresh_targets, request_url, server_base, session_action_path,
    stop_targets, SessionSummary,
};

fn session(id: &str, status: &str) -> SessionSummary {
    SessionSummary { id: id.to_string(), status: status.to_string() }
}

#[test]
fn server_addresses() {
    assert_eq!(server_base("http://localhost:8080//"), "http://localhost:8080");
    assert_eq!(server_base("http://localhost:8080"), "http://localhost:8080");
    assert_eq!(request_url("http://h", "/sessions"), "http://h/sessions");
    assert_eq!(session_action_path("abc", "stop"), "/sessions/abc/stop");
}

#[test]
fn refresh_and_stop_pick_sessions_by_status() {
    let sessions = vec![
        session("a", "running"),
        session("b", "stopped"),
        session("c", "failed"),
        session("d", ""),
        session("e", "running"),
    ];
    assert_eq!(refresh_targets(&sessions), vec!["a", "b", "e"]);
    assert_eq!(stop_targets(&sessions), vec!["a", "e"]);
    assert!(stop_targets(&Vec::new()).is_empty());
}

#[test]
fn docker_build_arguments() {
    assert_eq!(
        docker_build_args("./container", false, false),
        vec!["build", "-f", "./container/Dockerfile", "-t", "octo-dev:latest", "."]
    );
    assert_eq!(
        docker_build_args("ctx", true, true),
        vec!["build", "-f", "ctx/Dockerfile.arm64", "-t", "octo-dev:latest", "--no-cache", "."]
    );
}
