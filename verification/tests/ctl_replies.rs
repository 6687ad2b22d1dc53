use oqto::ctl::{
    ask_reply, bus_event_line, bus_payload, bus_stats, bus_tail_step, published_event_id,
    surface_outcome, sync_results, uid_from_id_output, AskReply, BusEvent, SurfaceOutcome,
};
use oqto::json::JsonValue;

#[test]
fn ask_reply_answer_and_other() {
    match ask_reply(r#"{"response":"hello"}"#) {
        Some(AskReply::Answer(t)) => assert_eq!(t, "hello"),
        other => panic!("unexpected {:?}", other),
    }
    assert!(matches!(ask_reply(r#"{"status":"ok"}"#), Some(AskReply::Other)));
    assert!(ask_reply("not json").is_none());
}

#[test]
fn ask_reply_ambiguous_lists_matches() {
    let long = "abcdefghijklmnopqrstuvwxyzabcdefghijklmnopqrstuvwxyz";
    let body = format!(
        r#"{{"error":"2 sessions match","matches":[{{"id":"s1","title":"{}"}},{{"title":"short"}},{{"id":"s3"}}]}}"#,
        long
    );
    match ask_reply(&body) {
        Some(AskReply::Ambiguous { message, matches, suggestion }) => {
            assert_eq!(message, "2 sessions match");
            assert_eq!(
                matches,
                vec![
                    ("s1".to_string(), format!("{}...", &long[..40])),
                    ("?".to_string(), "short".to_string()),
                    ("s3".to_string(), "(untitled)".to_string()),
                ]
            );
            assert_eq!(suggestion, "s1");
        }
        other => panic!("unexpected {:?}", other),
    }
    match ask_reply(r#"{"matches":"x"}"#) {
        Some(AskReply::Ambiguous { message, matches, suggestion }) => {
            assert_eq!(message, "Multiple matches found");
            assert!(matches.is_empty());
            assert_eq!(suggestion, "session_id");
        }
        other => panic!("unexpected {:?}", other),
    }
}

#[test]
fn ask_reply_title_clipped_by_bytes() {
    // 20 two-byte characters: 40 bytes, not longer than 40, so no ellipsis.
    let t20 = "é".repeat(20);
    let t21 = "é".repeat(21);
    let body = format!(r#"{{"matches":[{{"id":"a","title":"{}"}},{{"id":"b","title":"{}"}}]}}"#, t20, t21);
    match ask_reply(&body) {
        Some(AskReply::Ambiguous { matches, .. }) => {
            assert_eq!(matches[0].1, t20);
            assert_eq!(matches[1].1, format!("{}...", t21));
        }
        other => panic!("unexpected {:?}", other),
    }
}

#[test]
fn bus_tail_steps() {
    let ev = r#"{"channel":"bus","type":"event","topic":"t","scope":"user","scope_id":"u1","source":{"type":"agent"}}"#;
    let s = bus_tail_step(0, Some(2), ev);
    assert_eq!(s.seen, 1);
    assert!(!s.stop);
    let e = s.event.unwrap();
    assert_eq!(bus_event_line(&e), "[user/u1] t <- agent");
    let s = bus_tail_step(1, Some(2), ev);
    assert_eq!(s.seen, 2);
    assert!(s.stop);
    let s = bus_tail_step(1, Some(2), r#"{"channel":"bus","type":"subscribed"}"#);
    assert!(s.event.is_none());
    assert_eq!(s.seen, 1);
    assert!(!s.stop);
    let s = bus_tail_step(5, None, ev);
    assert_eq!(s.seen, 6);
    assert!(!s.stop);
    let s = bus_tail_step(0, None, "garbage");
    assert!(s.event.is_none());
}

#[test]
fn bus_event_line_defaults() {
    let e = BusEvent {
        topic: "-".to_string(),
        scope: "-".to_string(),
        scope_id: "-".to_string(),
        source: "-".to_string(),
    };
    assert_eq!(bus_event_line(&e), "[-/-] - <- -");
}

#[test]
fn bus_stats_counters() {
    let s = bus_stats(
        r#"{"subscriber_count":3,"total_subscriptions":7,"events_published":18446744073709551615,"events_delivered":-1,"events_dropped_authz":2.5}"#,
    )
    .unwrap();
    assert_eq!(s.subscribers, 3);
    assert_eq!(s.subscriptions, 7);
    assert_eq!(s.published, u64::MAX);
    assert_eq!(s.delivered, 0);
    assert_eq!(s.dropped_authz, 0);
    assert_eq!(s.dropped_rate, 0);
    assert!(bus_stats("nope").is_none());
}

#[test]
fn published_ids() {
    assert_eq!(published_event_id(r#"{"event_id":"e-1"}"#).as_deref(), Some("e-1"));
    assert_eq!(published_event_id(r#"{}"#).as_deref(), Some("unknown"));
    assert!(published_event_id("<html>").is_none());
}

#[test]
fn bus_payloads() {
    assert!(matches!(bus_payload("  \n", true), Ok(JsonValue::Object(e)) if e.is_empty()));
    assert!(matches!(bus_payload(r#"{"a":1}"#, true), Ok(JsonValue::Object(e)) if e.len() == 1));
    assert_eq!(bus_payload("{", true).unwrap_err(), "parsing payload JSON from stdin");
    assert_eq!(bus_payload("", false).unwrap_err(), "parsing --payload JSON");
    assert!(matches!(bus_payload("[1,2]", false), Ok(JsonValue::Array(a)) if a.len() == 2));
}

#[test]
fn sync_results_entries() {
    let r = sync_results(r#"{"results":[{"user_id":"u1"},{"user_id":"u2","error":"boom"},{}]}"#).unwrap();
    assert_eq!(
        r,
        vec![
            ("u1".to_string(), None),
            ("u2".to_string(), Some("boom".to_string())),
            ("-".to_string(), None),
        ]
    );
    assert_eq!(sync_results(r#"{"results":5}"#).unwrap(), vec![]);
    assert!(sync_results("x").is_none());
}

#[test]
fn surface_outcomes() {
    match surface_outcome(r#"{"action":{"name":"ok","context":[]}}"#, true) {
        Some(SurfaceOutcome::Action(n)) => assert_eq!(n, "ok"),
        other => panic!("unexpected {:?}", other),
    }
    match surface_outcome(r#"{"action":{}}"#, true) {
        Some(SurfaceOutcome::Action(n)) => assert_eq!(n, "unknown"),
        other => panic!("unexpected {:?}", other),
    }
    assert!(matches!(surface_outcome(r#"{"timeout":true}"#, true), Some(SurfaceOutcome::TimedOut)));
    assert!(matches!(surface_outcome(r#"{"timeout":false}"#, true), Some(SurfaceOutcome::Dismissed)));
    match surface_outcome(r#"{"request_id":"r1"}"#, false) {
        Some(SurfaceOutcome::Sent(id)) => assert_eq!(id.as_deref(), Some("r1")),
        other => panic!("unexpected {:?}", other),
    }
    assert!(matches!(surface_outcome(r#"{}"#, false), Some(SurfaceOutcome::Sent(None))));
    assert!(surface_outcome("", true).is_none());
}

#[test]
fn uid_from_id_command_output() {
    assert_eq!(uid_from_id_output("uid=1000(alice) gid=1000(alice) groups=1000(alice)\n"), 1000);
    assert_eq!(uid_from_id_output("uid=+7(x)"), 7);
    assert_eq!(uid_from_id_output("no id here"), 0);
    assert_eq!(uid_from_id_output("uid=abc(x)"), 0);
    assert_eq!(uid_from_id_output("uid=4294967296(x)"), 0);
    assert_eq!(uid_from_id_output("uid=12uid=5"), 12);
    assert_eq!(uid_from_id_output("uid=42"), 42);
}
