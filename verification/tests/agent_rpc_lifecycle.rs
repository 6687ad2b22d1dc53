use oqto::agent_rpc::{SessionTable, StartDecision};

#[test]
fn local_start_launches_then_reuses() {
    let mut t = SessionTable::new(41000);
    let ports = match t.begin_local_start("alice", "/w/a", None) {
        StartDecision::Launch(p) => p,
        other => panic!("unexpected {:?}", other),
    };
    assert_eq!((ports.opencode_port, ports.ttyd_port, ports.fileserver_port), (41000, 41001, 41002));
    assert_eq!(t.next_port(), 41003);

    let h = t.finish_start("local-1a2b".to_string(), None, "alice", "/w/a", ports, Some("ses_x".to_string()));
    assert_eq!(h.session_id, "local-1a2b");
    assert_eq!(h.api_url, "http://localhost:41000");
    assert_eq!(h.opencode_session_id.as_deref(), Some("ses_x"));
    assert!(h.is_new);
    assert!(t.contains("local-1a2b"));

    match t.begin_local_start("alice", "/w/a", None) {
        StartDecision::Reuse(h) => {
            assert_eq!(h.session_id, "local-1a2b");
            assert_eq!(h.ttyd_port, 41001);
            assert!(!h.is_new);
        }
        other => panic!("unexpected {:?}", other),
    }
    assert_eq!(t.next_port(), 41003);

    // Another working directory of the same user needs a new local session.
    match t.begin_local_start("alice", "/w/b", None) {
        StartDecision::Launch(p) => assert_eq!(p.opencode_port, 41003),
        other => panic!("unexpected {:?}", other),
    }
}

#[test]
fn container_start_reuses_any_session_of_the_user() {
    let mut t = SessionTable::new(50000);
    let ports = match t.begin_container_start("bob", "/w/a", None) {
        StartDecision::Launch(p) => p,
        other => panic!("unexpected {:?}", other),
    };
    t.finish_start("octo-bob-99".to_string(), Some("c0ffee".to_string()), "bob", "/w/a", ports, None);
    assert_eq!(t.get("octo-bob-99").unwrap().container_id.as_deref(), Some("c0ffee"));
    match t.begin_container_start("bob", "/w/other", None) {
        StartDecision::Reuse(h) => {
            assert_eq!(h.session_id, "octo-bob-99");
            assert_eq!(h.workdir, "/w/other");
        }
        other => panic!("unexpected {:?}", other),
    }
    match t.begin_container_start("carol", "/w/a", None) {
        StartDecision::Launch(p) => assert_eq!(p.opencode_port, 50003),
        other => panic!("unexpected {:?}", other),
    }
}

#[test]
fn reuse_does_not_need_free_ports() {
    let mut t = SessionTable::new(65530);
    let p = match t.begin_local_start("u", "/w", None) {
        StartDecision::Launch(p) => p,
        other => panic!("unexpected {:?}", other),
    };
    t.finish_start("s".to_string(), None, "u", "/w", p, None);
    assert_eq!(t.next_port(), 65533);
    assert!(matches!(t.begin_local_start("u", "/w", None), StartDecision::Reuse(_)));
}
