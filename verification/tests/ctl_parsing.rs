use oqto::ctl::{
    api_failure_message, ask_event_of_data, bus_event_of_frame, created_user_report,
    detect_profile_from_config_text, sandbox_report_from_text, tab_defs, AskEvent, InstallProfile,
};

#[test]
fn tabs_from_json() {
    let t = tab_defs(r#"[{"title":"A","content":"a"},{"content":"b"},7]"#).unwrap();
    assert_eq!(
        t,
        vec![
            (Some("A".to_string()), Some("a".to_string())),
            (None, Some("b".to_string())),
            (None, None)
        ]
    );
    assert_eq!(tab_defs(r#"{"title":"A"}"#).unwrap_err(), "parsing tabs JSON");
    assert_eq!(tab_defs("not json").unwrap_err(), "parsing tabs JSON");
}

#[test]
fn failure_messages() {
    assert_eq!(api_failure_message(r#"{"error":"bad","message":"m"}"#), "bad");
    assert_eq!(api_failure_message(r#"{"message":"m"}"#), "m");
    assert_eq!(api_failure_message(r#"{"error":5}"#), r#"{"error":5}"#);
    assert_eq!(api_failure_message("oops"), "oops");
}

#[test]
fn created_user_from_answer() {
    let r = created_user_report(r#"{"username":"al","id":"u1","linux_username":"oqto_al"}"#, "alice", "a@x", "user");
    assert_eq!(r.username, "al");
    assert_eq!(r.email, "a@x");
    assert_eq!(r.role, "user");
    assert_eq!(r.linux_username.as_deref(), Some("oqto_al"));
    assert_eq!(r.id, "u1");
    let r = created_user_report("garbage", "alice", "a@x", "admin");
    assert_eq!((r.username.as_str(), r.role.as_str(), r.id.as_str()), ("alice", "admin", "?"));
    assert!(r.linux_username.is_none());
}

#[test]
fn bus_frames() {
    let e = bus_event_of_frame(r#"{"channel":"bus","type":"event","topic":"t","scope":"s","source":{"type":"cli"}}"#).unwrap();
    assert_eq!((e.topic.as_str(), e.scope.as_str(), e.scope_id.as_str(), e.source.as_str()), ("t", "s", "-", "cli"));
    assert!(bus_event_of_frame(r#"{"channel":"bus","type":"ack"}"#).is_none());
    assert!(bus_event_of_frame(r#"{"channel":"ui","type":"event"}"#).is_none());
    assert!(bus_event_of_frame("{").is_none());
}

#[test]
fn ask_stream_events() {
    assert!(matches!(ask_event_of_data(r#"{"type":"text","data":"hi"}"#), Some(AskEvent::Text(t)) if t == "hi"));
    assert!(matches!(ask_event_of_data(r#"{"type":"thinking","data":"hm"}"#), Some(AskEvent::Thinking(t)) if t == "hm"));
    assert!(matches!(ask_event_of_data(r#"{"type":"done"}"#), Some(AskEvent::Done)));
    assert!(matches!(ask_event_of_data(r#"{"type":"error","error":"no"}"#), Some(AskEvent::Error(t)) if t == "no"));
    assert!(ask_event_of_data(r#"{"type":"text"}"#).is_none());
    assert!(ask_event_of_data(r#"{"type":"other"}"#).is_none());
    assert!(ask_event_of_data("x").is_none());
}

#[test]
fn configuration_text() {
    assert_eq!(detect_profile_from_config_text("[local]\nsingle_user = true\n"), Some(InstallProfile::Personal));
    assert_eq!(detect_profile_from_config_text("[local]\nsingle_user = false\n"), Some(InstallProfile::Team));
    assert_eq!(detect_profile_from_config_text("[local]\n"), None);
    assert_eq!(detect_profile_from_config_text("= broken"), None);
    let r = sandbox_report_from_text("enabled = true\nprofile = \"strict\"\n").unwrap();
    assert!(r.enabled);
    assert_eq!(r.profile, "strict");
    assert_eq!(r.warnings.len(), 1);
    assert!(sandbox_report_from_text("= broken").is_err());
}
