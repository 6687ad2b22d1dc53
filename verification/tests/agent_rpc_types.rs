use oqto::agent_rpc::{
    Conversation, HealthStatus, MessageModel, SendMessagePart, SendMessageRequest, SessionHandle,
    StartSessionOpts, TokenCache, TokenUsage,
};

#[test]
fn test_conversation_creation() {
    let conv = Conversation {
        id: "conv_123".to_string(),
        title: Some("My Session".to_string()),
        parent_id: None,
        workspace_path: "/home/user/project".to_string(),
        project_name: "project".to_string(),
        created_at: 1700000000000,
        updated_at: 1700000001000,
        is_active: true,
        version: Some("1.0.0".to_string()),
    };

    assert_eq!(conv.id, "conv_123");
    assert_eq!(conv.title, Some("My Session".to_string()));
    assert!(conv.is_active);
}

#[test]
fn test_conversation_clone() {
    let conv = Conversation {
        id: "conv_456".to_string(),
        title: None,
        parent_id: Some("conv_parent".to_string()),
        workspace_path: "/workspace".to_string(),
        project_name: "test".to_string(),
        created_at: 1700000000000,
        updated_at: 1700000001000,
        is_active: false,
        version: None,
    };

    let cloned = conv.clone();
    assert_eq!(cloned.id, conv.id);
    assert_eq!(cloned.parent_id, conv.parent_id);
}

#[test]
fn test_token_usage_full() {
    let tokens = TokenUsage {
        input: Some(1000),
        output: Some(500),
        reasoning: Some(200),
        cache: Some(TokenCache { read: Some(800), write: Some(100) }),
    };

    assert_eq!(tokens.input, Some(1000));
    assert!(tokens.cache.is_some());

    let cache = tokens.cache.unwrap();
    assert_eq!(cache.read, Some(800));
}

#[test]
fn test_start_session_opts_default() {
    let opts = StartSessionOpts::default();

    assert!(opts.model.is_none());
    assert!(opts.agent.is_none());
    assert!(opts.resume_session_id.is_none());
    assert!(opts.project_id.is_none());
    assert!(opts.env.is_empty());
}

#[test]
fn test_start_session_opts_with_values() {
    let env = vec![("API_KEY".to_string(), "secret".to_string())];

    let opts = StartSessionOpts {
        model: Some("anthropic/opus-3".to_string()),
        agent: Some("coding-agent".to_string()),
        resume_session_id: Some("ses_old".to_string()),
        project_id: Some("proj_123".to_string()),
        env,
    };

    assert_eq!(opts.model, Some("anthropic/opus-3".to_string()));
    assert_eq!(opts.agent, Some("coding-agent".to_string()));
    assert_eq!(opts.project_id, Some("proj_123".to_string()));
    let value = opts.env.iter().find(|(k, _)| k == "API_KEY").map(|(_, v)| v.clone());
    assert_eq!(value.unwrap(), "secret");
}

#[test]
fn test_start_session_opts_debug() {
    let opts = StartSessionOpts { model: Some("test-model".to_string()), ..Default::default() };

    let debug_str = format!("{:?}", opts);
    assert!(debug_str.contains("test-model"));
}

#[test]
fn test_session_handle_creation() {
    let handle = SessionHandle {
        session_id: "ses_handle".to_string(),
        opencode_session_id: Some("opencode_123".to_string()),
        api_url: "http://localhost:41820".to_string(),
        opencode_port: 41820,
        ttyd_port: 41821,
        fileserver_port: 41822,
        workdir: "/home/user/project".to_string(),
        is_new: true,
    };

    assert_eq!(handle.session_id, "ses_handle");
    assert!(handle.is_new);
    assert_eq!(handle.opencode_port, 41820);
}

#[test]
fn test_session_handle_clone() {
    let handle = SessionHandle {
        session_id: "ses_clone".to_string(),
        opencode_session_id: Some("oc_123".to_string()),
        api_url: "http://example.com".to_string(),
        opencode_port: 9000,
        ttyd_port: 9001,
        fileserver_port: 9002,
        workdir: "/data".to_string(),
        is_new: true,
    };

    let cloned = handle.clone();
    assert_eq!(cloned.session_id, handle.session_id);
    assert_eq!(cloned.opencode_session_id, handle.opencode_session_id);
}

#[test]
fn test_send_message_request_text_only() {
    let request = SendMessageRequest {
        parts: vec![SendMessagePart::Text { text: "Hello, assistant!".to_string() }],
        model: None,
    };

    assert_eq!(request.parts.len(), 1);
    assert!(request.model.is_none());
}

#[test]
fn test_send_message_request_with_model() {
    let request = SendMessageRequest {
        parts: vec![SendMessagePart::Text { text: "Test".to_string() }],
        model: Some(MessageModel {
            provider_id: "anthropic".to_string(),
            model_id: "sonnet-3-5".to_string(),
        }),
    };

    assert!(request.model.is_some());
    let model = request.model.unwrap();
    assert_eq!(model.provider_id, "anthropic");
}

#[test]
fn test_send_message_request_multiple_parts() {
    let request = SendMessageRequest {
        parts: vec![
            SendMessagePart::Text { text: "Check this file:".to_string() },
            SendMessagePart::File {
                mime: "text/plain".to_string(),
                url: "file:///path/to/file.txt".to_string(),
                filename: Some("file.txt".to_string()),
            },
            SendMessagePart::Agent { name: "code-review".to_string(), id: Some("agent_123".to_string()) },
        ],
        model: None,
    };

    assert_eq!(request.parts.len(), 3);
}

#[test]
fn test_health_status_healthy() {
    let status = HealthStatus {
        healthy: true,
        mode: "local".to_string(),
        version: Some("1.0.0".to_string()),
        details: Some("All systems operational".to_string()),
    };

    assert!(status.healthy);
    assert_eq!(status.mode, "local");
}

#[test]
fn test_health_status_unhealthy() {
    let status = HealthStatus {
        healthy: false,
        mode: "container".to_string(),
        version: None,
        details: Some("Container runtime unavailable".to_string()),
    };

    assert!(!status.healthy);
    assert!(status.version.is_none());
}

#[test]
fn test_health_status_clone() {
    let status = HealthStatus {
        healthy: true,
        mode: "mock".to_string(),
        version: Some("test".to_string()),
        details: Some("details".to_string()),
    };

    let cloned = status.clone();
    assert_eq!(cloned.healthy, status.healthy);
    assert_eq!(cloned.mode, status.mode);
}

#[test]
fn test_health_status_debug() {
    let status = HealthStatus { healthy: true, mode: "debug-test".to_string(), version: None, details: None };

    let debug_str = format!("{:?}", status);
    assert!(debug_str.contains("debug-test"));
    assert!(debug_str.contains("healthy"));
}
