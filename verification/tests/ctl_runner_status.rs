use oqto::ctl::{
    choose_database_path, find_user_id, runner_socket_path, runner_status_text, user_not_found,
    RunnerProbe,
};

fn some(s: &str) -> Option<String> {
    Some(s.to_string())
}

#[test]
fn runner_status_texts() {
    assert_eq!(runner_socket_path("1000"), "/run/user/1000/oqto-runner.sock");
    assert_eq!(runner_status_text(RunnerProbe::NoUid), "error (no uid)");
    assert_eq!(runner_status_text(RunnerProbe::SocketFound { query_output: some("active") }), "active");
    assert_eq!(runner_status_text(RunnerProbe::SocketFound { query_output: some("inactive") }), "active");
    assert_eq!(
        runner_status_text(RunnerProbe::SocketFound { query_output: some("unknown") }),
        "active (socket exists)"
    );
    assert_eq!(
        runner_status_text(RunnerProbe::SocketFound { query_output: None }),
        "active (socket exists)"
    );
    assert_eq!(runner_status_text(RunnerProbe::NoSocket { query_output: some("failed") }), "failed");
    assert_eq!(
        runner_status_text(RunnerProbe::NoSocket { query_output: some("") }),
        "inactive (no socket)"
    );
    assert_eq!(runner_status_text(RunnerProbe::NoSocket { query_output: None }), "inactive (no socket)");
}

#[test]
fn database_location() {
    let service = "/var/lib/oqto/.local/share/oqto/oqto.db";
    let user = "/home/a/.local/share/oqto/oqto.db".to_string();
    assert_eq!(choose_database_path(true, Some(("/x/oqto/oqto.db".to_string(), true)), user.clone(), true, true), service);
    assert_eq!(choose_database_path(false, Some(("/x/oqto/oqto.db".to_string(), true)), user.clone(), true, true), "/x/oqto/oqto.db");
    assert_eq!(choose_database_path(false, Some(("/x/oqto/oqto.db".to_string(), false)), user.clone(), true, true), user);
    assert_eq!(choose_database_path(false, None, user.clone(), false, true), service);
    assert_eq!(choose_database_path(false, None, user.clone(), false, false), user);
}

#[test]
fn users_by_name() {
    let users = vec![
        (some("alice"), None),
        (some("alice"), some("u1")),
        (some("bob"), some("u2")),
        (None, some("u3")),
    ];
    assert_eq!(find_user_id(&users, "alice"), some("u1"));
    assert_eq!(find_user_id(&users, "bob"), some("u2"));
    assert_eq!(find_user_id(&users, "carol"), None);
    assert_eq!(user_not_found("carol"), "User 'carol' not found. Provide a valid username or user ID.");
}
