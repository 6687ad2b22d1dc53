use oqto::agent_rpc::{
    message_of, message_of_chat, message_part, messages_of, messages_of_chat, MessagePart,
    OpenCodeMessage, OpenCodePart, TokenCache, TokenUsage, ToolState,
};
use oqto::history::{ChatMessage, ChatMessagePart};

fn part(kind: &str) -> OpenCodePart {
    OpenCodePart {
        part_type: kind.to_string(),
        text: None,
        tool: None,
        call_id: None,
        state: None,
        reason: None,
        tokens: None,
    }
}

fn usage() -> TokenUsage {
    TokenUsage {
        input: Some(10),
        output: Some(20),
        reasoning: None,
        cache: Some(TokenCache { read: Some(1), write: None }),
    }
}

#[test]
fn parts_by_type() {
    let mut p = part("text");
    p.text = Some("hi".to_string());
    assert!(matches!(message_part(p), MessagePart::Text { text } if text == "hi"));
    assert!(matches!(message_part(part("text")), MessagePart::Text { text } if text.is_empty()));

    let mut p = part("tool");
    p.tool = Some("bash".to_string());
    p.call_id = Some("c1".to_string());
    p.state = Some(ToolState {
        status: Some("completed".to_string()),
        input: None,
        output: Some("ok".to_string()),
        title: None,
        metadata: None,
    });
    match message_part(p) {
        MessagePart::Tool { tool, call_id, state } => {
            assert_eq!(tool, "bash");
            assert_eq!(call_id.as_deref(), Some("c1"));
            let s = state.unwrap();
            assert_eq!(s.status.as_deref(), Some("completed"));
            assert_eq!(s.output.as_deref(), Some("ok"));
        }
        other => panic!("unexpected {:?}", other),
    }
    assert!(matches!(message_part(part("tool")), MessagePart::Tool { tool, call_id: None, state: None } if tool.is_empty()));

    assert!(matches!(message_part(part("step-start")), MessagePart::StepStart));
    let mut p = part("step-finish");
    p.reason = Some("stop".to_string());
    p.tokens = Some(usage());
    match message_part(p) {
        MessagePart::StepFinish { reason, tokens } => {
            assert_eq!(reason.as_deref(), Some("stop"));
            let t = tokens.unwrap();
            assert_eq!(t.input, Some(10));
            assert_eq!(t.cache.unwrap().read, Some(1));
        }
        other => panic!("unexpected {:?}", other),
    }
    assert!(matches!(message_part(part("patch")), MessagePart::Unknown));
    assert!(matches!(message_part(part("Text")), MessagePart::Unknown));
}

fn api_message(id: &str, provider: Option<&str>, model: Option<&str>) -> OpenCodeMessage {
    OpenCodeMessage {
        id: id.to_string(),
        session_id: "ses_1".to_string(),
        role: "assistant".to_string(),
        created: 100,
        completed: Some(200),
        model_id: model.map(|m| m.to_string()),
        provider_id: provider.map(|p| p.to_string()),
        tokens: Some(usage()),
        parts: vec![part("step-start"), part("text")],
    }
}

#[test]
fn message_fields_and_model() {
    let m = message_of(api_message("m1", Some("anthropic"), None));
    assert_eq!(m.id, "m1");
    assert_eq!(m.session_id, "ses_1");
    assert_eq!(m.role, "assistant");
    assert_eq!(m.created_at, 100);
    assert_eq!(m.completed_at, Some(200));
    assert_eq!(m.tokens.unwrap().output, Some(20));
    let model = m.model.unwrap();
    assert_eq!(model.provider_id, "anthropic");
    assert_eq!(model.model_id, "");
    assert_eq!(m.parts.len(), 2);
    assert!(matches!(m.parts[0], MessagePart::StepStart));
    assert!(matches!(&m.parts[1], MessagePart::Text { text } if text.is_empty()));

    assert!(message_of(api_message("m2", None, None)).model.is_none());
}

#[test]
fn messages_keep_order() {
    let ms = messages_of(vec![
        api_message("a", None, Some("x")),
        api_message("b", None, None),
        api_message("c", Some("p"), Some("q")),
    ]);
    let ids: Vec<&str> = ms.iter().map(|m| m.id.as_str()).collect();
    assert_eq!(ids, vec!["a", "b", "c"]);
    assert_eq!(ms[0].model.as_ref().unwrap().model_id, "x");
    assert!(messages_of(vec![]).is_empty());
}

fn chat_part(kind: &str) -> ChatMessagePart {
    ChatMessagePart {
        id: format!("prt_{}", kind),
        part_type: kind.to_string(),
        text: None,
        tool_name: None,
        tool_input: None,
        tool_output: None,
        tool_status: None,
        tool_title: None,
    }
}

fn chat_message(id: &str) -> ChatMessage {
    let mut text = chat_part("text");
    text.text = Some("answer".to_string());
    let mut tool = chat_part("tool");
    tool.tool_name = Some("read".to_string());
    tool.tool_input = Some(r#"{"path":"a.rs"}"#.to_string());
    tool.tool_status = Some("completed".to_string());
    ChatMessage {
        id: id.to_string(),
        session_id: "ses_2".to_string(),
        role: "assistant".to_string(),
        created_at: 5,
        completed_at: None,
        parent_id: Some("msg_0".to_string()),
        model_id: Some("big-model".to_string()),
        provider_id: None,
        agent: None,
        summary_title: None,
        tokens_input: None,
        tokens_output: Some(42),
        parts: vec![text, tool, chat_part("step-finish"), chat_part("reasoning")],
    }
}

#[test]
fn stored_chat_message_as_message() {
    let m = message_of_chat(chat_message("msg_1"));
    assert_eq!(m.id, "msg_1");
    assert_eq!(m.session_id, "ses_2");
    assert_eq!(m.created_at, 5);
    assert_eq!(m.completed_at, None);
    let model = m.model.unwrap();
    assert_eq!(model.provider_id, "");
    assert_eq!(model.model_id, "big-model");
    let t = m.tokens.unwrap();
    assert_eq!((t.input, t.output), (None, Some(42)));
    assert!(t.reasoning.is_none() && t.cache.is_none());
    assert!(matches!(&m.parts[0], MessagePart::Text { text } if text == "answer"));
    match &m.parts[1] {
        MessagePart::Tool { tool, call_id, state } => {
            assert_eq!(tool, "read");
            assert!(call_id.is_none());
            let st = state.as_ref().unwrap();
            assert_eq!(st.input.as_deref(), Some(r#"{"path":"a.rs"}"#));
            assert_eq!(st.status.as_deref(), Some("completed"));
            assert!(st.metadata.is_none());
        }
        other => panic!("unexpected {:?}", other),
    }
    assert!(matches!(&m.parts[2], MessagePart::StepFinish { reason: None, tokens: None }));
    assert!(matches!(&m.parts[3], MessagePart::Unknown));
}

#[test]
fn stored_chat_messages_in_order() {
    let ms = messages_of_chat(vec![chat_message("a"), chat_message("b")]);
    assert_eq!(ms.len(), 2);
    assert_eq!(ms[0].id, "a");
    assert_eq!(ms[1].id, "b");
    let mut plain = chat_message("c");
    plain.model_id = None;
    plain.tokens_output = None;
    let m = message_of_chat(plain);
    assert!(m.model.is_none());
    assert!(m.tokens.is_none());
}
