use oqto::agent::{agent_color, format_agent_name, AgentStatus};
use oqto::agent_service::{
    agents_md_content, allocate_agent_ports, parse_workspace_subdirs, rediscovered_agent_id,
    start_agent_command, stop_agent_command, AgentService, RuntimeMode, Session,
};
use oqto::api_error::ApiError;
use oqto::auth::{AuthConfig, AuthError};
use oqto::container::{ContainerConfig, ContainerState, PortMapping};

const PALETTE: [&str; 8] = [
    "#3B82F6", "#10B981", "#F59E0B", "#EF4444", "#8B5CF6", "#EC4899", "#06B6D4", "#84CC16",
];

fn session(base: Option<i64>, max: Option<i64>) -> Session {
    Session {
        id: "s1".to_string(),
        container_id: None,
        workspace_path: "/data/s1".to_string(),
        opencode_port: 41820,
        agent_base_port: base,
        max_agents: max,
        runtime_mode: RuntimeMode::Container,
        persona_path: None,
        mmry_port: None,
    }
}

#[test]
fn color_is_palette_entry_at_byte_sum() {
    // "main" = 109 + 97 + 105 + 110 = 421, 421 % 8 = 5
    assert_eq!(agent_color("main"), "#EC4899");
    for name in ["", "a", "research", "doc-writer", "ünïcode"] {
        assert!(PALETTE.contains(&agent_color(name).as_str()));
    }
}

#[test]
fn status_names_round_trip() {
    for st in [AgentStatus::Running, AgentStatus::Starting, AgentStatus::Stopped, AgentStatus::Failed] {
        assert_eq!(AgentStatus::parse(&st.display_string()).unwrap(), st);
    }
    assert_eq!(AgentStatus::parse("RUNNING").unwrap(), AgentStatus::Running);
    assert_eq!(AgentStatus::parse("bogus").unwrap_err(), "unknown agent status: bogus");
}

#[test]
fn agent_names_are_title_cased_words() {
    assert_eq!(format_agent_name("doc-writer"), "Doc Writer");
    assert_eq!(format_agent_name("main"), "Main");
    assert_eq!(format_agent_name("a-b-c"), "A B C");
}

#[test]
fn agent_directory_names_are_cleaned_or_refused() {
    let svc = AgentService::new();
    assert_eq!(svc.validate_agent_directory("My Agent!").unwrap(), "ygent");
    assert_eq!(svc.validate_agent_directory("doc-writer").unwrap(), "doc-writer");
    assert_eq!(svc.validate_agent_directory("!!!").unwrap_err().message, "invalid agent directory name");
    assert_eq!(
        svc.validate_agent_directory("-x").unwrap_err().message,
        "agent directory cannot start or end with hyphen"
    );
    assert_eq!(
        svc.validate_agent_directory("a--b").unwrap_err().message,
        "agent directory cannot contain consecutive hyphens"
    );
}

#[test]
fn agent_ports_take_first_free_offset() {
    let s = session(Some(42000), Some(3));
    assert_eq!(allocate_agent_ports(&s, &vec![]).unwrap(), (4001, 42000));
    assert_eq!(allocate_agent_ports(&s, &vec![4001, 4003]).unwrap(), (4002, 42001));
    assert_eq!(
        allocate_agent_ports(&s, &vec![4001, 4002, 4003]).unwrap_err().message,
        "no available ports for sub-agents (max 3 reached)"
    );
    assert_eq!(
        allocate_agent_ports(&session(None, None), &vec![]).unwrap_err().message,
        "session has no agent port range configured"
    );
}

#[test]
fn agent_commands_are_exact() {
    assert_eq!(
        start_agent_command("docs", 4002),
        "cd /home/dev/workspace/docs && opencode serve --port 4002 --hostname 0.0.0.0 > /tmp/agent-docs.log 2>&1 &"
    );
    assert_eq!(stop_agent_command(4002), "pkill -f 'opencode serve.*port 4002'");
    assert_eq!(agents_md_content("docs", "Writes docs"), "# docs\n\nWrites docs\n");
}

#[test]
fn workspace_listing_and_rediscovery() {
    assert_eq!(parse_workspace_subdirs(" alpha \n.hidden\n\nbeta\n"), vec!["alpha", "beta"]);
    assert_eq!(rediscovered_agent_id("/home/dev/workspace/docs").unwrap(), "docs");
    assert!(rediscovered_agent_id("workspace").is_none());
    assert!(rediscovered_agent_id("").is_none());
}

#[test]
fn env_set_twice_keeps_last_value_once() {
    let c = ContainerConfig::new("img").env("A", "1").env("B", "2").env("A", "3");
    assert_eq!(c.env, vec![("A".to_string(), "3".to_string()), ("B".to_string(), "2".to_string())]);
    let c = c.envs(vec![("B".to_string(), "4".to_string()), ("C".to_string(), "5".to_string())]);
    assert_eq!(
        c.env,
        vec![
            ("A".to_string(), "3".to_string()),
            ("B".to_string(), "4".to_string()),
            ("C".to_string(), "5".to_string())
        ]
    );
}

#[test]
fn config_validation_reports_first_problem() {
    let c = ContainerConfig::new("ubuntu").env("BAD-KEY", "x").workdir("relative");
    let err = c.validate().unwrap_err();
    let oqto::container::ContainerError::InvalidInput(m) = err;
    assert!(m.contains("BAD-KEY"));
    assert!(ContainerConfig::new("ubuntu").workdir("relative").validate().is_err());
    assert!(ContainerConfig::new("ubuntu").workdir("/ok").port(8080, 80).label("k", "v").validate().is_ok());
}

#[test]
fn port_mappings_and_states() {
    let p = PortMapping::new(8080, 80);
    assert_eq!((p.host_port, p.container_port, p.protocol.as_str()), (8080, 80, "tcp"));
    assert_eq!(PortMapping::udp(53, 53).protocol, "udp");
    assert_eq!(ContainerState::Running.display_string(), "running");
    assert_eq!(ContainerState::default(), ContainerState::Unknown);
}

#[test]
fn api_errors_classified_by_message() {
    assert!(matches!(ApiError::from_message("User not found".to_string()), ApiError::NotFound(_)));
    assert!(matches!(ApiError::from_message("Authentication failed".to_string()), ApiError::Unauthorized(_)));
    assert!(matches!(ApiError::from_message("permission denied".to_string()), ApiError::Forbidden(_)));
    assert!(matches!(ApiError::from_message("already exists".to_string()), ApiError::Conflict(_)));
    assert!(matches!(ApiError::from_message("connection refused".to_string()), ApiError::ServiceUnavailable(_)));
    let e = ApiError::from_message("disk full".to_string());
    assert_eq!(e.status_code(), 500);
    assert_eq!(e.error_code(), "INTERNAL_ERROR");
    assert_eq!(e.message(), "Internal server error: disk full");
    let (status, body) = ApiError::not_found("x").response();
    assert_eq!(status, 404);
    assert_eq!(body.code, "NOT_FOUND");
    assert_eq!(body.error, "Resource not found: x");
}

#[test]
fn auth_errors_map_to_status_and_code() {
    let (status, body) = AuthError::InsufficientPermissions("admin".to_string()).response();
    assert_eq!(status, 403);
    assert_eq!(body.error_code, "insufficient_permissions");
    assert_eq!(body.error, "insufficient permissions: admin");
    assert_eq!(AuthError::InvalidCredentials.response().0, 401);
}

#[test]
fn generated_secrets_differ() {
    let a = AuthConfig::generate_jwt_secret();
    let b = AuthConfig::generate_jwt_secret();
    assert_eq!(a.len(), 64);
    assert_ne!(a, b);
}
