use oqto::pi_stream::{
    on_pi_event, separator_parts, transform_pi_event_for_ws, user_message_parts,
    AssistantMessageEvent, ContentPart, MessageAccumulator, PiEvent, ToolCall, WsCommand,
    WsEvent,
};

fn text_delta(d: &str) -> PiEvent {
    PiEvent::MessageUpdate {
        assistant_message_event: AssistantMessageEvent::TextDelta { delta: d.to_string() },
    }
}

fn thinking_delta(d: &str) -> PiEvent {
    PiEvent::MessageUpdate {
        assistant_message_event: AssistantMessageEvent::ThinkingDelta { delta: d.to_string() },
    }
}

fn tool_call_end(id: &str) -> PiEvent {
    PiEvent::MessageUpdate {
        assistant_message_event: AssistantMessageEvent::ToolcallEnd {
            tool_call: ToolCall {
                id: id.to_string(),
                name: "bash".to_string(),
                arguments: "{\"cmd\":\"ls\"}".to_string(),
            },
        },
    }
}

fn tool_end(id: &str) -> PiEvent {
    PiEvent::ToolExecutionEnd {
        tool_call_id: id.to_string(),
        tool_name: "bash".to_string(),
        result: "\"ok\"".to_string(),
    }
}

#[test]
fn browser_events_for_agent_events() {
    assert!(matches!(transform_pi_event_for_ws(&PiEvent::AgentStart), Some(WsEvent::AgentStart)));
    assert!(matches!(transform_pi_event_for_ws(&PiEvent::AgentEnd), Some(WsEvent::Done)));
    assert!(transform_pi_event_for_ws(&PiEvent::TurnStart).is_none());
    assert!(transform_pi_event_for_ws(&PiEvent::TurnEnd).is_none());
    assert!(transform_pi_event_for_ws(&PiEvent::MessageEnd).is_none());
    assert!(transform_pi_event_for_ws(&PiEvent::Other).is_none());
    assert!(matches!(
        transform_pi_event_for_ws(&PiEvent::MessageStart { role: "assistant".to_string() }),
        Some(WsEvent::MessageStart)
    ));
    assert!(transform_pi_event_for_ws(&PiEvent::MessageStart { role: "user".to_string() }).is_none());
    match transform_pi_event_for_ws(&text_delta("Hel")) {
        Some(WsEvent::Text { data }) => assert_eq!(data, "Hel"),
        _ => panic!("expected a text event"),
    }
    match transform_pi_event_for_ws(&thinking_delta("hmm")) {
        Some(WsEvent::Thinking { data }) => assert_eq!(data, "hmm"),
        _ => panic!("expected a thinking event"),
    }
    match transform_pi_event_for_ws(&tool_call_end("t1")) {
        Some(WsEvent::ToolUse { id, name, input }) => {
            assert_eq!(id, "t1");
            assert_eq!(name, "bash");
            assert_eq!(input, "{\"cmd\":\"ls\"}");
        }
        _ => panic!("expected a tool use"),
    }
    let start = PiEvent::ToolExecutionStart {
        tool_call_id: "t1".to_string(),
        tool_name: "bash".to_string(),
        args: "{}".to_string(),
    };
    match transform_pi_event_for_ws(&start) {
        Some(WsEvent::ToolStart { id, name, input }) => {
            assert_eq!((id.as_str(), name.as_str(), input.as_str()), ("t1", "bash", "{}"));
        }
        _ => panic!("expected a tool start"),
    }
    match transform_pi_event_for_ws(&tool_end("t1")) {
        Some(WsEvent::ToolResult { id, content, .. }) => {
            assert_eq!(id, "t1");
            assert_eq!(content, "\"ok\"");
        }
        _ => panic!("expected a tool result"),
    }
    assert!(matches!(
        transform_pi_event_for_ws(&PiEvent::AutoCompactionStart),
        Some(WsEvent::CompactionStart)
    ));
    assert!(matches!(
        transform_pi_event_for_ws(&PiEvent::AutoCompactionEnd),
        Some(WsEvent::Compaction)
    ));
    let other_update = PiEvent::MessageUpdate { assistant_message_event: AssistantMessageEvent::Other };
    assert!(transform_pi_event_for_ws(&other_update).is_none());
}

#[test]
fn accumulator_orders_thinking_text_tools() {
    let mut acc = MessageAccumulator::new();
    acc.process_event(&text_delta("Hel"));
    acc.process_event(&tool_call_end("t1"));
    acc.process_event(&thinking_delta("let me "));
    acc.process_event(&text_delta("lo"));
    acc.process_event(&tool_end("t1"));
    acc.process_event(&thinking_delta("see"));
    acc.process_event(&PiEvent::TurnEnd);
    let parts = acc.take_message().unwrap();
    assert_eq!(parts.len(), 4);
    assert!(matches!(&parts[0], ContentPart::Thinking { text } if text == "let me see"));
    assert!(matches!(&parts[1], ContentPart::Text { text } if text == "Hello"));
    assert!(matches!(&parts[2], ContentPart::ToolUse { id, .. } if id == "t1"));
    assert!(matches!(&parts[3], ContentPart::ToolResult { content, .. } if content == "\"ok\""));
    assert!(acc.take_message().is_none());
}

#[test]
fn accumulator_without_content_gives_nothing() {
    let mut acc = MessageAccumulator::new();
    acc.process_event(&PiEvent::AgentStart);
    acc.process_event(&PiEvent::MessageStart { role: "assistant".to_string() });
    assert!(acc.take_message().is_none());
}

#[test]
fn agent_end_stores_reply_only_when_history_is_kept() {
    let mut acc = MessageAccumulator::new();
    let out = on_pi_event(&mut acc, &text_delta("Hi"), true);
    assert!(out.save.is_none());
    assert!(matches!(out.forward, Some(WsEvent::Text { .. })));
    let out = on_pi_event(&mut acc, &PiEvent::AgentEnd, false);
    assert!(out.save.is_none());
    assert!(matches!(out.forward, Some(WsEvent::Done)));
    let out = on_pi_event(&mut acc, &PiEvent::AgentEnd, true);
    let parts = out.save.unwrap();
    assert_eq!(parts.len(), 1);
    assert!(matches!(&parts[0], ContentPart::Text { text } if text == "Hi"));
    let out = on_pi_event(&mut acc, &PiEvent::AgentEnd, true);
    assert!(out.save.is_none());
}

#[test]
fn user_commands_store_their_text() {
    for cmd in [
        WsCommand::Prompt { message: "go".to_string() },
        WsCommand::Steer { message: "go".to_string() },
        WsCommand::FollowUp { message: "go".to_string() },
    ] {
        let parts = user_message_parts(&cmd).unwrap();
        assert_eq!(parts.len(), 1);
        assert!(matches!(&parts[0], ContentPart::Text { text } if text == "go"));
    }
    assert!(user_message_parts(&WsCommand::Abort).is_none());
    assert!(user_message_parts(&WsCommand::NewSession).is_none());
    assert!(user_message_parts(&WsCommand::Compact { custom_instructions: None }).is_none());
}

#[test]
fn separator_marks_new_conversation() {
    let parts = separator_parts();
    assert_eq!(parts.len(), 1);
    assert!(matches!(&parts[0], ContentPart::Separator { text } if text == "New conversation started"));
}
