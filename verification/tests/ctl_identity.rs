use oqto::ctl::{
    linux_account_issues, linux_user_candidates, linux_user_fix_message,
    missing_linux_username_issue, parse_i64, uid_fix_message, uid_lookup, IdentityIssue,
    UidLookup,
};

fn chars(s: &str) -> Vec<char> {
    s.chars().collect()
}

fn texts(v: &[IdentityIssue]) -> Vec<(String, String, Option<String>)> {
    v.iter()
        .map(|i| (i.severity.clone(), i.message.clone(), i.remediation.clone()))
        .collect()
}

#[test]
fn parse_i64_agrees_with_std_parse() {
    let cases = [
        "0",
        "1000",
        "+5",
        "-17",
        "-0",
        "9223372036854775807",
        "9223372036854775808",
        "-9223372036854775808",
        "-9223372036854775809",
        "",
        "-",
        "+",
        "+-1",
        "12a",
        " 12",
        "00042",
        "99999999999999999999999",
    ];
    for c in cases {
        assert_eq!(parse_i64(&chars(c)), c.parse::<i64>().ok(), "input {:?}", c);
    }
}

#[test]
fn uid_lookup_reads_trimmed_output() {
    assert!(matches!(uid_lookup(true, "1000\n"), UidLookup::Uid(1000)));
    assert!(matches!(uid_lookup(true, "  42  "), UidLookup::Uid(42)));
    assert!(matches!(uid_lookup(true, "abc\n"), UidLookup::Unparsed));
    assert!(matches!(uid_lookup(true, ""), UidLookup::Unparsed));
    assert!(matches!(uid_lookup(false, "1000\n"), UidLookup::Missing));
}

#[test]
fn missing_linux_username_issue_texts() {
    let i = missing_linux_username_issue("u1", "alice");
    assert_eq!(i.user_id, "u1");
    assert_eq!(i.username, "alice");
    assert_eq!(i.severity, "warning");
    assert_eq!(i.message, "missing linux_username");
    assert_eq!(
        i.remediation.as_deref(),
        Some("set linux_username/linux_uid from existing OS account")
    );
}

#[test]
fn linux_user_candidates_in_order() {
    assert_eq!(
        linux_user_candidates("User-42", "Alice"),
        vec![
            "user-42".to_string(),
            "oqto_user-42".to_string(),
            "alice".to_string(),
            "oqto_alice".to_string(),
        ]
    );
}

#[test]
fn account_issues_missing_user() {
    let v = linux_account_issues("u1", "alice", "alice", Some(1000), UidLookup::Missing, true, false);
    assert_eq!(
        texts(&v),
        vec![(
            "error".to_string(),
            "linux user 'alice' does not exist".to_string(),
            Some("create linux user and re-run doctor".to_string()),
        )]
    );
    assert_eq!(v[0].user_id, "u1");
    assert_eq!(v[0].username, "alice");
}

#[test]
fn account_issues_unparsed_uid() {
    let v = linux_account_issues("u1", "alice", "alice", None, UidLookup::Unparsed, false, false);
    assert_eq!(
        texts(&v),
        vec![(
            "error".to_string(),
            "could not parse uid for linux user 'alice'".to_string(),
            None,
        )]
    );
}

#[test]
fn account_issues_all_good() {
    let v = linux_account_issues("u1", "alice", "alice", Some(1000), UidLookup::Uid(1000), true, false);
    assert!(v.is_empty());
}

#[test]
fn account_issues_uid_mismatch_and_no_sockets() {
    let v = linux_account_issues("u1", "alice", "oqto_alice", Some(999), UidLookup::Uid(1000), false, false);
    assert_eq!(
        texts(&v),
        vec![
            (
                "warning".to_string(),
                "linux_uid mismatch (db=Some(999), actual=Some(1000)) for 'oqto_alice'".to_string(),
                Some("update users.linux_uid to actual OS uid".to_string()),
            ),
            (
                "error".to_string(),
                "runner socket missing at canonical path /run/oqto/runner-sockets/oqto_alice/oqto-runner.sock and user-runtime path /run/user/1000/oqto-runner.sock".to_string(),
                Some("start/reprovision oqto-runner for this Linux user and verify lingering/service status".to_string()),
            ),
        ]
    );
}

#[test]
fn account_issues_no_stored_uid_and_runtime_socket_only() {
    let v = linux_account_issues("u1", "bob", "bob", None, UidLookup::Uid(1001), false, true);
    assert_eq!(
        texts(&v),
        vec![
            (
                "warning".to_string(),
                "linux_uid mismatch (db=None, actual=Some(1001)) for 'bob'".to_string(),
                Some("update users.linux_uid to actual OS uid".to_string()),
            ),
            (
                "warning".to_string(),
                "runner socket present only at user-runtime path /run/user/1001/oqto-runner.sock; canonical shared path /run/oqto/runner-sockets/bob/oqto-runner.sock is missing".to_string(),
                Some("reinstall/restart oqto-runner with --socket /run/oqto/runner-sockets/{linux_username}/oqto-runner.sock or update backend runner_socket_pattern consistently".to_string()),
            ),
        ]
    );
}

#[test]
fn account_issues_both_sockets() {
    let v = linux_account_issues("u1", "bob", "bob", Some(1001), UidLookup::Uid(1001), true, true);
    assert_eq!(
        texts(&v),
        vec![(
            "warning".to_string(),
            "both canonical shared and user-runtime runner sockets are present".to_string(),
            Some("disable conflicting runner service/socket pattern to avoid split routing".to_string()),
        )]
    );
}

#[test]
fn identity_fix_messages() {
    assert_eq!(
        linux_user_fix_message("alice", "oqto_alice", 1000),
        "alice: set linux_username=oqto_alice, linux_uid=1000"
    );
    assert_eq!(uid_fix_message("alice", 1000), "alice: updated linux_uid to Some(1000)");
    assert_eq!(uid_fix_message("bob", -3), "bob: updated linux_uid to Some(-3)");
}
