use oqto::agent::{agent_color, AgentInfo, AgentStatus};

#[test]
fn test_agent_color_deterministic() {
    assert_eq!(agent_color("main"), agent_color("main"));
    assert_eq!(agent_color("doc-writer"), agent_color("doc-writer"));
}

#[test]
fn test_agent_color_different() {
    let c1 = agent_color("main");
    let c2 = agent_color("research");
    assert!(c1.starts_with('#'));
    assert!(c2.starts_with('#'));
}

#[test]
fn test_sub_agent_name_formatting() {
    let agent = AgentInfo::sub_agent(
        "doc-writer".to_string(),
        Some(4001),
        Some(41824),
        AgentStatus::Running,
        true,
        false,
        None,
    );
    assert_eq!(agent.name, "Doc Writer");
    assert_eq!(agent.directory, "/home/dev/workspace/doc-writer");
    assert_eq!(agent.port, Some(4001));
    assert_eq!(agent.external_port, Some(41824));
}

#[test]
fn test_agent_status_from_str() {
    assert_eq!("running".parse::<AgentStatus>().unwrap(), AgentStatus::Running);
    assert_eq!("starting".parse::<AgentStatus>().unwrap(), AgentStatus::Starting);
    assert_eq!("stopped".parse::<AgentStatus>().unwrap(), AgentStatus::Stopped);
    assert_eq!("failed".parse::<AgentStatus>().unwrap(), AgentStatus::Failed);
    assert!("invalid".parse::<AgentStatus>().is_err());
}

#[test]
fn test_main_agent() {
    let agent = AgentInfo::main(41820, 41820, AgentStatus::Running, true, true, None);
    assert_eq!(agent.id, "main");
    assert_eq!(agent.name, "Main Workspace");
    assert_eq!(agent.port, Some(41820));
    assert_eq!(agent.external_port, Some(41820));
}
