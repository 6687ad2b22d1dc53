use oqto::ctl::{user_id_in_listing, user_id_in_reply, user_not_found_message};
use oqto::ctl::{
    ask_event_from, ask_reply_from, bus_event_from, bus_stats_from, failure_message_from,
    published_event_id_from, surface_outcome_from, sync_results_from, tab_defs_from,
    user_report_from, AskEvent, AskReply, SurfaceOutcome,
};
use oqto::json::JsonValue;

fn s(t: &str) -> JsonValue {
    JsonValue::Str(t.to_string())
}

fn obj(entries: Vec<(&str, JsonValue)>) -> JsonValue {
    JsonValue::Object(entries.into_iter().map(|(k, v)| (k.to_string(), v)).collect())
}

#[test]
fn tabs_from_values() {
    let v = JsonValue::Array(vec![obj(vec![("title", s("A"))]), JsonValue::Null]);
    assert_eq!(tab_defs_from(&v).unwrap(), vec![(Some("A".to_string()), None), (None, None)]);
    assert_eq!(tab_defs_from(&obj(vec![])).unwrap_err(), "parsing tabs JSON");
}

#[test]
fn failure_and_user_from_values() {
    let v = Some(obj(vec![("message", s("no")), ("error", JsonValue::Bool(true))]));
    assert_eq!(failure_message_from(&v, "body"), "no");
    assert_eq!(failure_message_from(&None, "body"), "body");
    let u = Some(obj(vec![("id", s("u9")), ("linux_username", s("oqto_al"))]));
    let r = user_report_from(&u, "al", "al@x", "user");
    assert_eq!((r.username.as_str(), r.email.as_str(), r.role.as_str(), r.id.as_str()), ("al", "al@x", "user", "u9"));
    assert_eq!(r.linux_username.as_deref(), Some("oqto_al"));
    assert_eq!(user_report_from(&None, "al", "e", "admin").id, "?");
}

#[test]
fn bus_values() {
    let ev = obj(vec![
        ("channel", s("bus")),
        ("type", s("event")),
        ("topic", s("t")),
        ("source", obj(vec![("type", s("user"))])),
    ]);
    let e = bus_event_from(&ev).unwrap();
    assert_eq!((e.topic.as_str(), e.scope.as_str(), e.scope_id.as_str(), e.source.as_str()), ("t", "-", "-", "user"));
    assert!(bus_event_from(&obj(vec![("channel", s("bus"))])).is_none());
    let st = bus_stats_from(&obj(vec![
        ("subscriber_count", JsonValue::Number("12".to_string())),
        ("events_published", JsonValue::Number("1.5".to_string())),
    ]));
    assert_eq!((st.subscribers, st.published, st.delivered), (12, 0, 0));
    assert_eq!(published_event_id_from(&obj(vec![("event_id", s("e7"))])), "e7");
    assert_eq!(published_event_id_from(&JsonValue::Null), "unknown");
}

#[test]
fn sync_and_surface_values() {
    let v = obj(vec![("results", JsonValue::Array(vec![obj(vec![("error", s("x"))])]))]);
    assert_eq!(sync_results_from(&v), vec![("-".to_string(), Some("x".to_string()))]);
    let a = obj(vec![("action", obj(vec![("name", s("go"))]))]);
    assert!(matches!(surface_outcome_from(&a, true), SurfaceOutcome::Action(n) if n == "go"));
    assert!(matches!(surface_outcome_from(&a, false), SurfaceOutcome::Sent(None)));
    let t = obj(vec![("timeout", JsonValue::Bool(true))]);
    assert!(matches!(surface_outcome_from(&t, true), SurfaceOutcome::TimedOut));
}

#[test]
fn ask_values() {
    let e = obj(vec![("type", s("thinking")), ("data", s("hmm"))]);
    assert!(matches!(ask_event_from(&e), Some(AskEvent::Thinking(t)) if t == "hmm"));
    assert!(ask_event_from(&obj(vec![("type", s("text"))])).is_none());
    let r = obj(vec![("matches", JsonValue::Array(vec![obj(vec![("id", s("s2"))])]))]);
    match ask_reply_from(&r) {
        AskReply::Ambiguous { message, matches, suggestion } => {
            assert_eq!(message, "Multiple matches found");
            assert_eq!(matches, vec![("s2".to_string(), "(untitled)".to_string())]);
            assert_eq!(suggestion, "s2");
        }
        other => panic!("unexpected {:?}", other),
    }
    assert!(matches!(ask_reply_from(&obj(vec![("response", s("42"))])), AskReply::Answer(t) if t == "42"));
}

#[test]
fn user_lookup_replies() {
    let list = r#"[{"username":"bob"},{"username":"bob","id":"u2"},{"username":"al","id":"u3"}]"#;
    assert_eq!(user_id_in_listing(list, "bob").as_deref(), Some("u2"));
    assert_eq!(user_id_in_listing(list, "al").as_deref(), Some("u3"));
    assert!(user_id_in_listing(list, "cy").is_none());
    assert!(user_id_in_listing(r#"{"username":"bob","id":"u2"}"#, "bob").is_none());
    assert!(user_id_in_listing("nope", "bob").is_none());
    assert_eq!(user_id_in_reply(r#"{"id":"u7","username":"x"}"#).as_deref(), Some("u7"));
    assert!(user_id_in_reply(r#"{"username":"x"}"#).is_none());
    assert_eq!(
        user_not_found_message("zed"),
        "User 'zed' not found. Provide a valid username or user ID."
    );
}
