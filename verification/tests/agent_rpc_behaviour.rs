use oqto::agent_rpc::{
    conversation_from_opencode, find_conversation, local_conversations, message_model,
    new_container_session_id, new_local_session_id, part_kind, session_handle, stored_token_usage,
    BackendMode, ContainerBackendConfig, LocalBackendConfig, PartKind, SessionPorts, SessionTable,
    StartSessionOpts, TrackedSession,
};
use oqto::history::{list_sessions, SessionInfo, SessionTime};

fn running_session(id: &str, user: &str, workdir: &str, port: u16) -> TrackedSession {
    TrackedSession {
        session_id: id.to_string(),
        container_id: None,
        user_id: user.to_string(),
        workdir: workdir.to_string(),
        ports: SessionPorts { opencode_port: port, ttyd_port: port + 1, fileserver_port: port + 2 },
    }
}

#[test]
fn ports_are_handed_out_in_threes() {
    let mut t = SessionTable::new(41820);
    let a = t.allocate_ports();
    let b = t.allocate_ports();
    assert_eq!((a.opencode_port, a.ttyd_port, a.fileserver_port), (41820, 41821, 41822));
    assert_eq!((b.opencode_port, b.ttyd_port, b.fileserver_port), (41823, 41824, 41825));
    assert_eq!(t.next_port(), 41826);
}

#[test]
fn table_insert_get_replace_remove() {
    let mut t = SessionTable::new(1000);
    t.insert(running_session("s1", "alice", "/w/a", 1000));
    t.insert(running_session("s2", "bob", "/w/b", 1003));
    assert_eq!(t.get("s1").unwrap().user_id, "alice");
    t.insert(running_session("s1", "carol", "/w/c", 1006));
    assert_eq!(t.get("s1").unwrap().user_id, "carol");
    assert!(t.contains("s2"));
    t.remove("s2");
    assert!(!t.contains("s2"));
    assert!(t.get("s2").is_none());
    assert_eq!(t.session_url("s1").unwrap(), "http://localhost:1006");
    assert!(t.session_url("s2").is_none());
}

#[test]
fn reuse_decisions_differ_by_backend() {
    let mut t = SessionTable::new(1000);
    t.insert(running_session("s1", "alice", "/w/a", 1000));
    let h = t.reuse_local("alice", "/w/a", Some("oc".to_string())).unwrap();
    assert_eq!(h.session_id, "s1");
    assert!(!h.is_new);
    assert_eq!(h.api_url, "http://localhost:1000");
    assert_eq!(h.opencode_session_id.as_deref(), Some("oc"));
    assert!(t.reuse_local("alice", "/w/other", None).is_none());
    let h = t.reuse_container("alice", "/w/other", None).unwrap();
    assert_eq!(h.workdir, "/w/other");
    assert_eq!(h.ttyd_port, 1001);
    assert!(t.reuse_container("bob", "/w/a", None).is_none());
}

#[test]
fn handles_and_ids() {
    let ports = SessionPorts { opencode_port: 5, ttyd_port: 6, fileserver_port: 7 };
    let h = session_handle("x".to_string(), None, ports, "/w".to_string(), true);
    assert_eq!(h.api_url, "http://localhost:5");
    let id = new_local_session_id();
    assert!(id.starts_with("local-"));
    assert_eq!(id.len(), "local-".len() + 8);
    assert!(id["local-".len()..].chars().all(|c| c.is_ascii_hexdigit()));
    let cid = new_container_session_id("bob");
    assert!(cid.starts_with("octo-bob-"));
    assert_eq!(cid.len(), "octo-bob-".len() + 8);
    assert_ne!(new_local_session_id(), new_local_session_id());
}

#[test]
fn conversations_mark_running_sessions_active() {
    let s = list_sessions(vec![(
        SessionInfo {
            id: "ses_1".to_string(),
            version: None,
            title: None,
            parent_id: None,
            directory: Some("/w/proj".to_string()),
            project_id: None,
            time: SessionTime { created: 1, updated: 2 },
        },
        "/p".to_string(),
    )]);
    let mut t = SessionTable::new(1);
    assert!(!local_conversations(&s, &t)[0].is_active);
    t.insert(running_session("ses_1", "u", "/w", 1));
    let c = local_conversations(&s, &t);
    assert!(c[0].is_active);
    assert_eq!(c[0].project_name, "proj");
    assert_eq!(find_conversation(&c, "ses_1").unwrap().workspace_path, "/w/proj");
    assert!(find_conversation(&c, "other").is_none());
}

#[test]
fn opencode_sessions_without_directory_are_global() {
    let c = conversation_from_opencode(SessionInfo {
        id: "x".to_string(),
        version: None,
        title: None,
        parent_id: None,
        directory: None,
        project_id: None,
        time: SessionTime { created: 3, updated: 4 },
    });
    assert_eq!(c.workspace_path, "");
    assert_eq!(c.project_name, "Global");
    assert!(c.is_active);
}

#[test]
fn message_decisions() {
    assert!(message_model(None, None).is_none());
    let m = message_model(Some("openai".to_string()), None).unwrap();
    assert_eq!((m.provider_id.as_str(), m.model_id.as_str()), ("openai", ""));
    assert!(stored_token_usage(None, None).is_none());
    let t = stored_token_usage(None, Some(3)).unwrap();
    assert_eq!((t.input, t.output, t.reasoning), (None, Some(3), None));
    assert_eq!(part_kind("text"), PartKind::Text);
    assert_eq!(part_kind("tool"), PartKind::Tool);
    assert_eq!(part_kind("step-start"), PartKind::StepStart);
    assert_eq!(part_kind("step-finish"), PartKind::StepFinish);
    assert_eq!(part_kind("reasoning"), PartKind::Unknown);
}

#[test]
fn backend_configuration() {
    assert_eq!(BackendMode::default(), BackendMode::Container);
    assert_eq!(BackendMode::Auto.display_string(), "auto");
    let c = ContainerBackendConfig::default();
    assert_eq!(c.image, "octo-dev:latest");
    assert_eq!(c.user_data_dir("bob"), "/var/lib/octo/users/bob/.local/share/opencode");
    let mut c = c;
    c.env = vec![("A".to_string(), "1".to_string())];
    let opts = StartSessionOpts {
        env: vec![("A".to_string(), "2".to_string()), ("B".to_string(), "3".to_string())],
        ..Default::default()
    };
    let ports = SessionPorts { opencode_port: 100, ttyd_port: 101, fileserver_port: 102 };
    let cfg = c.session_container("octo-bob-1", "/u/bob", "/w", ports, &opts);
    assert_eq!(cfg.name.as_deref(), Some("octo-bob-1"));
    assert_eq!(
        cfg.env,
        vec![
            ("A".to_string(), "2".to_string()),
            ("B".to_string(), "3".to_string()),
            ("XDG_DATA_HOME".to_string(), "/home/dev/.local/share".to_string())
        ]
    );
    assert_eq!(cfg.ports.len(), 3);
    assert_eq!((cfg.ports[1].host_port, cfg.ports[1].container_port), (101, 7681));
    assert_eq!(cfg.volumes[1], ("/w".to_string(), "/workspace".to_string()));
    assert!(cfg.validate().is_ok());
    c.host_network = true;
    let cfg = c.session_container("s", "/u", "/w", ports, &opts);
    assert!(cfg.ports.is_empty());
    assert_eq!(cfg.network_mode.as_deref(), Some("host"));
    let h = c.health("1.2", Some("boom".to_string()));
    assert!(!h.healthy);
    assert_eq!(h.details.as_deref(), Some("runtime error: boom"));

    let l = LocalBackendConfig { data_dir: "/d".to_string(), base_port: 1, single_user: false };
    assert_eq!(l.opencode_data_dir("u"), "/d/u/.local/share/opencode");
    assert_eq!(l.opencode_data_dir_in("u", Some("/x".to_string())), "/d/u/.local/share/opencode");
    let env = l.session_env("u", &StartSessionOpts::default());
    assert_eq!(env, vec![("XDG_DATA_HOME".to_string(), "/d/u/.local/share".to_string())]);
    let single = LocalBackendConfig { single_user: true, ..l };
    assert_eq!(single.opencode_data_dir_in("u", None), "./opencode");
    assert!(single.session_env("u", &StartSessionOpts::default()).is_empty());
    let d = LocalBackendConfig::default();
    assert!(d.data_dir.ends_with("octo/users"));
    assert_eq!(d.base_port, 41820);
}
