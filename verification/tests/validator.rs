use gemini_mcp_rs::gemini::{enforce_required_fields, GeminiResult};

#[test]
fn test_enforce_required_fields_requires_session_id() {
    let result = GeminiResult {
        success: true,
        session_id: String::new(),
        agent_messages: "msg".to_string(),
        all_messages: Vec::new(),
        return_all_messages: false,
        error: None,
    };

    let updated = enforce_required_fields(result);

    assert!(!updated.success);
    assert!(updated.error.as_ref().unwrap().contains("Failed to get `SESSION_ID`"));
}

#[test]
fn test_enforce_required_fields_requires_agent_messages_when_not_returning_all() {
    let result = GeminiResult {
        success: true,
        session_id: "session".to_string(),
        agent_messages: String::new(),
        all_messages: Vec::new(),
        return_all_messages: false,
        error: None,
    };

    let updated = enforce_required_fields(result);

    assert!(!updated.success);
    assert!(updated.error.as_ref().unwrap().contains("Failed to get `agent_messages`"));
}

#[test]
fn test_enforce_required_fields_allows_empty_agent_messages_with_all_messages() {
    let event: serde_json::Value = serde_json::from_str("{\"type\": \"tool_use\"}").unwrap();
    let result = GeminiResult {
        success: true,
        session_id: "session".to_string(),
        agent_messages: String::new(),
        all_messages: vec![event],
        return_all_messages: true,
        error: None,
    };

    let updated = enforce_required_fields(result);

    assert!(updated.success);
    assert!(updated.error.is_none());
}

#[test]
fn test_enforce_required_fields_appends_after_existing_error() {
    let result = GeminiResult {
        success: false,
        session_id: String::new(),
        agent_messages: String::new(),
        all_messages: Vec::new(),
        return_all_messages: false,
        error: Some("earlier trouble".to_string()),
    };

    let updated = enforce_required_fields(result);

    assert!(!updated.success);
    let text = updated.error.unwrap();
    assert!(text.starts_with("earlier trouble\n"));
    assert!(text.contains("Failed to get `SESSION_ID`"));
    assert!(text.contains("Failed to get `agent_messages`"));
}

#[test]
fn test_enforce_required_fields_requires_any_messages_under_full_capture() {
    let result = GeminiResult {
        success: true,
        session_id: "session".to_string(),
        agent_messages: String::new(),
        all_messages: Vec::new(),
        return_all_messages: true,
        error: None,
    };

    let updated = enforce_required_fields(result);

    assert!(!updated.success);
    assert!(updated
        .error
        .as_ref()
        .unwrap()
        .contains("Failed to get any messages from the gemini session."));
}
