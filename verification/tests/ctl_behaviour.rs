use oqto::ctl::{
    applied_fix_message, applied_report, base_path_from_url, generate_user_id, modified_date,
    profile_needs_detection, resolve_install_profile, runner_socket_pattern_from_config,
    safe_fix_plan, sanitize_for_linux, session_title_display, sessions_path, team_user_finding,
    user_id_with_suffix, CheckSeverity, ConfigValue, ContractFinding, InstallProfile, SafeFix,
};

fn finding(id: &str) -> ContractFinding {
    ContractFinding {
        id: id.to_string(),
        severity: CheckSeverity::Error,
        expected: String::new(),
        observed: String::new(),
        remediation: String::new(),
    }
}

#[test]
fn linux_usernames() {
    assert_eq!(sanitize_for_linux("Alice"), "alice");
    assert_eq!(sanitize_for_linux("1bob"), "_1bob");
    assert_eq!(sanitize_for_linux("-x-"), "_x");
    assert_eq!(sanitize_for_linux(""), "user");
    assert_eq!(sanitize_for_linux("a.b@c"), "a_b_c");
    let long = "a".repeat(40);
    assert_eq!(sanitize_for_linux(&long).len(), 32);
    assert_eq!(sanitize_for_linux("ab---"), "ab");
}

#[test]
fn user_ids() {
    assert_eq!(user_id_with_suffix("  John Doe ", "AbC1"), "john-doe-AbC1");
    assert_eq!(user_id_with_suffix("---", "zz_-"), "user-zz_-");
    assert_eq!(user_id_with_suffix("42", "wxyz"), "u-42-wxyz");
    assert_eq!(user_id_with_suffix("_svc", "wxyz"), "_svc-wxyz");
    let long = "x".repeat(50);
    assert_eq!(user_id_with_suffix(&long, "s").len(), 31 + 2);
    let id = generate_user_id("Alice");
    assert!(id.starts_with("alice-"));
    assert_eq!(id.len(), "alice-".len() + 4);
    assert_ne!(generate_user_id("alice"), generate_user_id("alice"));
}

#[test]
fn install_profiles() {
    assert_eq!(resolve_install_profile("single-user", None, None).unwrap(), InstallProfile::Personal);
    assert_eq!(resolve_install_profile("multi", None, None).unwrap(), InstallProfile::Team);
    assert_eq!(resolve_install_profile("auto", Some(InstallProfile::Team), None).unwrap(), InstallProfile::Team);
    assert_eq!(resolve_install_profile("auto", None, Some("team".to_string())).unwrap(), InstallProfile::Team);
    assert_eq!(resolve_install_profile("auto", None, Some("single".to_string())).unwrap(), InstallProfile::Personal);
    assert_eq!(resolve_install_profile("auto", None, None).unwrap(), InstallProfile::Personal);
    assert_eq!(
        resolve_install_profile("weird", None, None).unwrap_err(),
        "unknown install profile 'weird'. Expected 'auto', 'personal' or 'team'"
    );
    assert!(profile_needs_detection("auto"));
    assert!(!profile_needs_detection("team"));
}

#[test]
fn runner_socket_pattern() {
    let runner = ConfigValue::Table(vec![("socket_pattern".to_string(), ConfigValue::Text("/a/{user}".to_string()))]);
    let cfg = ConfigValue::Table(vec![
        ("local".to_string(), ConfigValue::Table(vec![("runner_socket_pattern".to_string(), ConfigValue::Text("/b".to_string()))])),
        ("backend".to_string(), ConfigValue::Table(vec![("runner".to_string(), runner)])),
    ]);
    assert_eq!(runner_socket_pattern_from_config(&cfg).as_deref(), Some("/a/{user}"));
    let cfg = ConfigValue::Table(vec![(
        "local".to_string(),
        ConfigValue::Table(vec![("runner_socket_pattern".to_string(), ConfigValue::Text("/b".to_string()))]),
    )]);
    assert_eq!(runner_socket_pattern_from_config(&cfg).as_deref(), Some("/b"));
    assert!(runner_socket_pattern_from_config(&ConfigValue::Integer(3)).is_none());
}

#[test]
fn server_paths_and_labels() {
    assert_eq!(base_path_from_url("http://localhost:8080/api/").unwrap(), "/api");
    assert_eq!(base_path_from_url("http://localhost:8080").unwrap(), "");
    assert_eq!(base_path_from_url("not a url").unwrap_err(), "parsing server URL");
    assert_eq!(sessions_path(None, 20), "/agents/sessions?limit=20");
    assert_eq!(sessions_path(Some("a b/é"), 5), "/agents/sessions?q=a%20b%2F%C3%A9&limit=5");
    let t = "x".repeat(40);
    assert_eq!(session_title_display(&t), format!("{}...", "x".repeat(38)));
    assert_eq!(session_title_display("short"), "short");
    assert_eq!(modified_date("2024-05-01T10:00:00Z"), "2024-05-01");
    assert_eq!(modified_date("-"), "-");
}

#[test]
fn safe_fixes_and_report() {
    let findings = vec![
        finding("service.a.enabled"),
        finding("path./run/oqto/runner-sockets.mode"),
        finding("team.user.bob.runner.socket.canonical"),
        finding("service.b.active"),
    ];
    let plan = safe_fix_plan(&findings, true, true);
    let msgs: Vec<String> = plan.iter().map(applied_fix_message).collect();
    assert_eq!(
        msgs,
        vec![
            "repaired /run/oqto/runner-sockets owner/group/mode (root:oqto 2770)",
            "reprovisioned oqto-runner for bob",
            "enabled system service a",
            "started system service b",
        ]
    );
    assert!(matches!(safe_fix_plan(&findings, false, false).as_slice(), [SafeFix::RepairRunnerSocketDir]));
    let report = applied_report(vec!["b".to_string(), "a".to_string(), "b".to_string()]);
    assert_eq!(report, vec!["a".to_string(), "b".to_string()]);
}

#[test]
fn team_findings_name_the_user() {
    let f = team_user_finding("u-1", "bob", "runner.socket.canonical", CheckSeverity::Warning, "socket", "none", "fix");
    assert_eq!(f.id, "team.user.bob.runner.socket.canonical");
    assert_eq!(f.expected, "socket (user_id=u-1)");
    assert_eq!(f.severity, CheckSeverity::Warning);
}
