use oqto::history::{
    chat_message_from_info, chat_part_from_info, chronological_order, is_message_file_name,
    is_part_file_name, message_parts, message_storage_dir, part_storage_dir, MessageInfo,
    MessageSummary, MessageTime, PartInfo, TokenUsage, ToolState,
};

fn part(id: &str, ty: &str) -> PartInfo {
    PartInfo {
        id: id.to_string(),
        message_id: "msg_1".to_string(),
        session_id: "ses_1".to_string(),
        part_type: ty.to_string(),
        text: Some(format!("text of {}", id)),
        tool: Some("bash".to_string()),
        state: Some(ToolState {
            status: Some("completed".to_string()),
            input: Some("{\"cmd\":\"ls\"}".to_string()),
            output: Some("a b".to_string()),
            title: Some("List".to_string()),
        }),
    }
}

#[test]
fn message_and_part_file_names() {
    assert!(is_message_file_name("msg_abc.json"));
    assert!(!is_message_file_name("msg_abc.txt"));
    assert!(!is_message_file_name("prt_abc.json"));
    assert!(is_part_file_name("prt_1.json"));
    assert!(!is_part_file_name("msg_1.json"));
    assert_eq!(message_storage_dir("/data/opencode", "ses_1"), "/data/opencode/storage/message/ses_1");
    assert_eq!(part_storage_dir("/data/opencode/", "msg_1"), "/data/opencode/storage/part/msg_1");
}

#[test]
fn parts_are_converted_by_type() {
    let t = chat_part_from_info(part("prt_1", "text"));
    assert_eq!(t.text.as_deref(), Some("text of prt_1"));
    assert!(t.tool_name.is_none() && t.tool_input.is_none() && t.tool_title.is_none());
    let tool = chat_part_from_info(part("prt_2", "tool"));
    assert!(tool.text.is_none());
    assert_eq!(tool.tool_name.as_deref(), Some("bash"));
    assert_eq!(tool.tool_input.as_deref(), Some("{\"cmd\":\"ls\"}"));
    assert_eq!(tool.tool_output.as_deref(), Some("a b"));
    assert_eq!(tool.tool_status.as_deref(), Some("completed"));
    assert_eq!(tool.tool_title.as_deref(), Some("List"));
    let step = chat_part_from_info(part("prt_3", "step-start"));
    assert_eq!(step.part_type, "step-start");
    assert_eq!(step.text.as_deref(), Some("text of prt_3"));
    assert!(step.tool_name.is_none());
}

#[test]
fn parts_are_ordered_by_id() {
    let parts = message_parts(vec![part("prt_c", "text"), part("prt_a", "tool"), part("prt_b", "text")]);
    let ids: Vec<&str> = parts.iter().map(|p| p.id.as_str()).collect();
    assert_eq!(ids, vec!["prt_a", "prt_b", "prt_c"]);
    assert_eq!(parts[0].tool_name.as_deref(), Some("bash"));
}

#[test]
fn messages_are_chronological() {
    assert_eq!(chronological_order(&vec![30, 10, 20, 10]), vec![1, 3, 2, 0]);
    assert_eq!(chronological_order(&vec![i64::MAX, i64::MIN]), vec![1, 0]);
    assert!(chronological_order(&Vec::new()).is_empty());
}

#[test]
fn message_fields_from_stored_message() {
    let info = MessageInfo {
        id: "msg_1".to_string(),
        session_id: "ses_1".to_string(),
        role: "assistant".to_string(),
        time: MessageTime { created: 5, completed: Some(9) },
        parent_id: None,
        model_id: Some("m".to_string()),
        provider_id: Some("p".to_string()),
        agent: None,
        summary: Some(MessageSummary { title: Some("Title".to_string()) }),
        tokens: Some(TokenUsage { input: Some(3), output: Some(4), reasoning: None }),
    };
    let m = chat_message_from_info(info, Vec::new());
    assert_eq!(m.created_at, 5);
    assert_eq!(m.completed_at, Some(9));
    assert_eq!(m.summary_title.as_deref(), Some("Title"));
    assert_eq!(m.tokens_input, Some(3));
    assert_eq!(m.tokens_output, Some(4));
    assert!(m.parts.is_empty());
}
