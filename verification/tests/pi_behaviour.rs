use oqto::pi::{
    pi_state_to_response, prompt_command_name, prompt_commands, prompt_description, PiModelInfo,
    PiState, PromptFile,
};

#[test]
fn prompt_file_names() {
    assert_eq!(prompt_command_name("review.md").as_deref(), Some("review"));
    assert_eq!(prompt_command_name(" spaced .TXT").as_deref(), Some("spaced"));
    assert_eq!(prompt_command_name("a.b.Md").as_deref(), Some("a.b"));
    assert_eq!(prompt_command_name(".md"), None);
    assert_eq!(prompt_command_name("notes.rs"), None);
    assert_eq!(prompt_command_name("README"), None);
    assert_eq!(prompt_command_name("  .md"), None);
}

#[test]
fn prompt_descriptions() {
    assert_eq!(prompt_description(&Some("\n  \n## Review code \nbody".to_string())), "Review code");
    assert_eq!(prompt_description(&Some("   ".to_string())), "Custom prompt");
    assert_eq!(prompt_description(&None), "Custom prompt");
}

#[test]
fn commands_deduplicated_in_search_order() {
    let files = vec![
        PromptFile { file_name: "fix.md".to_string(), content: Some("# Fix it".to_string()) },
        PromptFile { file_name: "x.json".to_string(), content: Some("{}".to_string()) },
        PromptFile { file_name: "fix.txt".to_string(), content: Some("other".to_string()) },
        PromptFile { file_name: "plan.txt".to_string(), content: None },
    ];
    let r = prompt_commands(&files);
    let got: Vec<(&str, &str)> = r.commands.iter().map(|c| (c.name.as_str(), c.description.as_str())).collect();
    assert_eq!(got, vec![("fix", "Fix it"), ("plan", "Custom prompt")]);
}

#[test]
fn state_reported_as_is() {
    let r = pi_state_to_response(PiState {
        model: Some(PiModelInfo {
            id: "m".to_string(),
            provider: "p".to_string(),
            name: "M".to_string(),
            context_window: 1000,
            max_tokens: 10,
        }),
        thinking_level: "low".to_string(),
        is_streaming: true,
        is_compacting: false,
        session_id: Some("s".to_string()),
        message_count: 3,
        auto_compaction_enabled: true,
    });
    assert_eq!(r.model.unwrap().context_window, 1000);
    assert_eq!(r.message_count, 3);
    assert!(r.is_streaming && r.auto_compaction_enabled);
}
