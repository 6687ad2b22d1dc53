use oqto::ctl::{
    contract_finding_summary, detect_profile_from_config_value, runner_apply_usernames,
    suggested_contract_commands, CheckSeverity, ConfigValue, ContractFinding, InstallProfile,
};

fn finding(id: &str) -> ContractFinding {
    finding_with_severity(id, CheckSeverity::Error)
}

fn finding_with_severity(id: &str, severity: CheckSeverity) -> ContractFinding {
    ContractFinding {
        id: id.to_string(),
        severity,
        expected: "expected".to_string(),
        observed: "observed".to_string(),
        remediation: "remediation".to_string(),
    }
}

fn config_from_toml(v: &toml::Value) -> ConfigValue {
    match v {
        toml::Value::String(s) => ConfigValue::Text(s.clone()),
        toml::Value::Integer(i) => ConfigValue::Integer(*i),
        toml::Value::Boolean(b) => ConfigValue::Boolean(*b),
        toml::Value::Array(a) => ConfigValue::Array(a.iter().map(config_from_toml).collect()),
        toml::Value::Table(t) => {
            ConfigValue::Table(t.iter().map(|(k, x)| (k.clone(), config_from_toml(x))).collect())
        }
        _ => ConfigValue::Other,
    }
}

#[test]
fn suggested_commands_are_deduplicated_and_cover_common_setup_drift() {
    let commands = suggested_contract_commands(&vec![
        finding("path./run/oqto/runner-sockets.group"),
        finding("path./run/oqto/runner-sockets.mode"),
        finding("path./etc/sudoers.d/oqto-multiuser.missing"),
        finding("service.oqto.service.enabled"),
        finding("service.oqto.service.active"),
        finding("team.user.alice.runner.socket.canonical"),
    ]);

    assert_eq!(
        commands,
        vec![
            "sudo install -d -m 2770 -o root -g oqto /run/oqto/runner-sockets",
            "./setup.sh --team --redo linux_user_isolation",
            "sudo systemctl enable oqto.service",
            "sudo systemctl start oqto.service",
            "sudo oqtoctl user setup-runner alice --force",
        ]
    );
}

#[test]
fn runner_apply_usernames_only_extracts_runner_socket_findings_once() {
    let usernames = runner_apply_usernames(&vec![
        finding("team.user.alice.runner.socket.canonical"),
        finding("team.user.alice.runner.socket.split-routing"),
        finding("team.user.bob.runner.socket.canonical"),
        finding("team.user.carol.identity.linux_uid"),
    ]);

    assert_eq!(usernames, vec!["alice".to_string(), "bob".to_string()]);
}

#[test]
fn contract_finding_summary_counts_all_severities() {
    let summary = contract_finding_summary(&vec![
        finding("service.oqto.service.active"),
        finding_with_severity("team.user.alice.runner.socket.split-routing", CheckSeverity::Warning),
        finding_with_severity("note", CheckSeverity::Info),
    ]);

    assert_eq!(summary.errors, 1);
    assert_eq!(summary.warnings, 1);
    assert_eq!(summary.info, 1);
}

#[test]
fn detect_profile_from_config_value_maps_single_user_and_multi_user() {
    let personal_cfg: toml::Value = toml::from_str("[local]\nsingle_user = true\n").expect("valid toml");
    let team_cfg: toml::Value = toml::from_str("[local]\nsingle_user = false\n").expect("valid toml");

    assert_eq!(
        detect_profile_from_config_value(&config_from_toml(&personal_cfg)),
        Some(InstallProfile::Personal)
    );
    assert_eq!(
        detect_profile_from_config_value(&config_from_toml(&team_cfg)),
        Some(InstallProfile::Team)
    );
}
