use oqto::agent::AgentStatus;
use oqto::agent_service::{
    agent_external_port, agent_record_id, created_agent_response, rediscover_record_action,
    rediscovery_ports, start_agent_plan, stop_agent_plan, KnownAgent, RediscoverAction,
    RuntimeMode, Session, StartAgentPlan, StopAgentPlan,
};

fn known(status: AgentStatus) -> KnownAgent {
    KnownAgent {
        record_id: "ses1:api".to_string(),
        status,
        internal_port: 4101,
        external_port: 51001,
    }
}

#[test]
fn start_plans() {
    assert!(matches!(start_agent_plan("api", None), StartAgentPlan::StartNew));
    for s in [AgentStatus::Running, AgentStatus::Starting] {
        match start_agent_plan("api", Some(known(s))) {
            StartAgentPlan::AlreadyRunning(r) => {
                assert_eq!(r.id, "api");
                assert_eq!(r.port, 4101);
                assert_eq!(r.external_port, 51001);
                assert_eq!(r.status, s);
            }
            other => panic!("unexpected {:?}", other),
        }
    }
    for s in [AgentStatus::Stopped, AgentStatus::Failed] {
        match start_agent_plan("api", Some(known(s))) {
            StartAgentPlan::Restart { record_id, response } => {
                assert_eq!(record_id, "ses1:api");
                assert_eq!(response.port, 4101);
                assert_eq!(response.external_port, 51001);
                assert_eq!(response.status, AgentStatus::Starting);
            }
            other => panic!("unexpected {:?}", other),
        }
    }
}

#[test]
fn stop_plans() {
    match stop_agent_plan("main", Some(known(AgentStatus::Running))) {
        StopAgentPlan::Refuse(m) => assert_eq!(m, "cannot stop main agent"),
        other => panic!("unexpected {:?}", other),
    }
    assert!(matches!(stop_agent_plan("api", None), StopAgentPlan::NotFound));
    match stop_agent_plan("api", Some(known(AgentStatus::Running))) {
        StopAgentPlan::Stop { record_id, command } => {
            assert_eq!(record_id, "ses1:api");
            assert_eq!(command, "pkill -f 'opencode serve.*port 4101'");
        }
        other => panic!("unexpected {:?}", other),
    }
}

#[test]
fn record_ids() {
    assert_eq!(agent_record_id("ses1", "api"), "ses1:api");
}

fn session(base: Option<i64>, max: Option<i64>) -> Session {
    Session {
        id: "ses1".to_string(),
        container_id: Some("c1".to_string()),
        workspace_path: "/data/ses1".to_string(),
        opencode_port: 52000,
        agent_base_port: base,
        max_agents: max,
        runtime_mode: RuntimeMode::Container,
        persona_path: None,
        mmry_port: None,
    }
}

#[test]
fn rediscovery_scans_the_agent_range() {
    assert_eq!(rediscovery_ports(&session(None, Some(3))), vec![]);
    assert_eq!(
        rediscovery_ports(&session(Some(51000), Some(3))),
        vec![(4001, 51000), (4002, 51001), (4003, 51002)]
    );
    assert_eq!(rediscovery_ports(&session(Some(51000), None)).len(), 10);
    assert_eq!(rediscovery_ports(&session(Some(51000), Some(-2))), vec![]);
    // External ports keep 16 bits, as the stored i64 port is cast.
    assert_eq!(rediscovery_ports(&session(Some(65536), Some(1))), vec![(4001, 0)]);
}

#[test]
fn rediscovered_records() {
    match rediscover_record_action("ses1", "doc-writer", 4002, 51001, None) {
        RediscoverAction::Record { record_id, agent_id, name, directory, internal_port, external_port } => {
            assert_eq!(record_id, "ses1:doc-writer");
            assert_eq!(agent_id, "doc-writer");
            assert_eq!(name, "Doc Writer");
            assert_eq!(directory, "/home/dev/workspace/doc-writer");
            assert_eq!((internal_port, external_port), (4002, 51001));
        }
        other => panic!("unexpected {:?}", other),
    }
    match rediscover_record_action("ses1", "api", 4001, 51000, Some(known(AgentStatus::Stopped))) {
        RediscoverAction::MarkRunning(id) => assert_eq!(id, "ses1:api"),
        other => panic!("unexpected {:?}", other),
    }
    assert!(matches!(
        rediscover_record_action("ses1", "api", 4001, 51000, Some(known(AgentStatus::Running))),
        RediscoverAction::Nothing
    ));
}

#[test]
fn agent_ports_and_created_agents() {
    let s = session(Some(51000), None);
    assert_eq!(agent_external_port(&s, "main", Some(known(AgentStatus::Running))), Some(52000));
    assert_eq!(agent_external_port(&s, "api", Some(known(AgentStatus::Running))), Some(51001));
    assert_eq!(agent_external_port(&s, "api", None), None);
    assert_eq!(agent_external_port(&s, "api", Some(known(AgentStatus::Starting))), Some(51001));
    assert_eq!(agent_external_port(&s, "api", Some(known(AgentStatus::Stopped))), None);
    assert_eq!(agent_external_port(&s, "api", Some(known(AgentStatus::Failed))), None);
    let r = created_agent_response("research");
    assert_eq!(r.id, "research");
    assert_eq!(r.directory, "/home/dev/workspace/research");
    assert_eq!(r.color, "#EC4899");
}
