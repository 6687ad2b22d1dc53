use oqto::agent::{AgentInfo, AgentStatus};
use oqto::agent_service::{
    agent_list, directory_agent, listed_agents, unlisted_subdirs, wants_runtime, RuntimeMode, Session,
};

#[test]
fn unknown_subdirectories_in_order() {
    let subdirs = vec!["docs".to_string(), "api".to_string(), "web".to_string(), "api".to_string()];
    let known = vec!["api".to_string()];
    assert_eq!(unlisted_subdirs(&subdirs, &known), vec!["docs", "web"]);
    assert_eq!(unlisted_subdirs(&subdirs, &Vec::new()).len(), 4);
}

#[test]
fn directory_agents_need_a_marker() {
    assert!(directory_agent("notes".to_string(), false, false).is_none());
    let a = directory_agent("doc-writer".to_string(), true, false).unwrap();
    assert_eq!(a.id, "doc-writer");
    assert_eq!(a.name, "Doc Writer");
    assert_eq!(a.directory, "/home/dev/workspace/doc-writer");
    assert_eq!(a.status, AgentStatus::Stopped);
    assert!(a.port.is_none() && a.external_port.is_none() && a.runtime.is_none());
    assert!(a.has_agents_md && !a.has_git);
    let g = directory_agent("repo".to_string(), false, true).unwrap();
    assert!(g.has_git);
}

#[test]
fn runtime_only_for_running_agents_on_request() {
    assert!(wants_runtime(true, AgentStatus::Running));
    assert!(!wants_runtime(false, AgentStatus::Running));
    assert!(!wants_runtime(true, AgentStatus::Stopped));
}

#[test]
fn listing_order() {
    let main = AgentInfo::main(41820, 52000, AgentStatus::Running, true, true, None);
    let persisted = vec![AgentInfo::sub_agent(
        "api".to_string(),
        Some(4001),
        Some(51000),
        AgentStatus::Stopped,
        false,
        true,
        None,
    )];
    let dirs = vec![
        directory_agent("docs".to_string(), true, false),
        directory_agent("tmp".to_string(), false, false),
        directory_agent("web".to_string(), false, true),
    ];
    let discovered = vec![AgentInfo::sub_agent(
        "unknown-51005".to_string(),
        Some(4006),
        Some(51005),
        AgentStatus::Running,
        false,
        false,
        None,
    )];
    let list = agent_list(main, persisted, dirs, discovered);
    let ids: Vec<&str> = list.iter().map(|a| a.id.as_str()).collect();
    assert_eq!(ids, vec!["main", "api", "docs", "web", "unknown-51005"]);
}

#[test]
fn listed_agents_start_with_main_on_session_port() {
    let session = Session {
        id: "s1".to_string(),
        container_id: Some("c1".to_string()),
        workspace_path: "/data/s1".to_string(),
        opencode_port: 52007,
        agent_base_port: Some(51000),
        max_agents: None,
        runtime_mode: RuntimeMode::Container,
        persona_path: None,
        mmry_port: None,
    };
    let dirs = vec![directory_agent("docs".to_string(), true, false)];
    let list = listed_agents(&session, AgentStatus::Running, true, false, None, vec![], dirs, vec![]);
    assert_eq!(list.len(), 2);
    assert_eq!(list[0].id, "main");
    assert_eq!(list[0].port, Some(41820));
    assert_eq!(list[0].external_port, Some(52007));
    assert_eq!(list[0].status, AgentStatus::Running);
    assert!(list[0].has_agents_md && !list[0].has_git);
    assert_eq!(list[1].id, "docs");
}
