use gemini_mcp_rs::gemini::GeminiResult;
use gemini_mcp_rs::server::{prepare_options, render_tool_response, GeminiArgs};

fn args(prompt: &str) -> GeminiArgs {
    GeminiArgs {
        prompt: prompt.to_string(),
        sandbox: false,
        session_id: None,
        return_all_messages: false,
        model: None,
        timeout_secs: None,
    }
}

#[test]
fn test_prepare_options_maps_fields() {
    let mut a = args("do the thing");
    a.sandbox = true;
    a.session_id = Some("sess-9".to_string());
    a.model = Some("gemini-pro".to_string());
    a.timeout_secs = Some(120);
    a.return_all_messages = true;
    let opts = prepare_options(a).unwrap();
    assert_eq!(opts.prompt, "do the thing");
    assert!(opts.sandbox);
    assert_eq!(opts.session_id, Some("sess-9".to_string()));
    assert_eq!(opts.model, Some("gemini-pro".to_string()));
    assert_eq!(opts.timeout_secs, Some(120));
    assert!(opts.return_all_messages);
}

#[test]
fn test_prepare_options_rejects_blank_prompt() {
    let r = prepare_options(args("   "));
    assert!(r.is_err());
    assert!(r.unwrap_err().contains("PROMPT is required"));
}

#[test]
fn test_prepare_options_rejects_blank_model() {
    let mut a = args("task");
    a.model = Some("  ".to_string());
    let r = prepare_options(a);
    assert!(r.is_err());
    assert!(r.unwrap_err().contains("Model overrides"));
}

#[test]
fn test_prepare_options_rejects_bad_timeout() {
    let mut a = args("task");
    a.timeout_secs = Some(0);
    assert!(prepare_options(a).is_err());
    let mut b = args("task");
    b.timeout_secs = Some(3601);
    assert!(prepare_options(b).is_err());
}

#[test]
fn test_prepare_options_empty_session_id_treated_as_none() {
    let mut a = args("task");
    a.session_id = Some("".to_string());
    let opts = prepare_options(a).unwrap();
    assert_eq!(opts.session_id, None);
}

#[test]
fn test_render_success_basic() {
    let result = GeminiResult {
        success: true,
        session_id: "s1".to_string(),
        agent_messages: "hello".to_string(),
        all_messages: Vec::new(),
        return_all_messages: false,
        error: None,
    };
    let (ok, text) = render_tool_response(&result);
    assert!(ok);
    assert_eq!(text, "success: true\nSESSION_ID: s1\nagent_messages: hello");
}

#[test]
fn test_render_success_with_captured_events() {
    let e1: serde_json::Value = serde_json::from_str("{\"a\": 1}").unwrap();
    let e2: serde_json::Value = serde_json::from_str("{\"b\": 2}").unwrap();
    let result = GeminiResult {
        success: true,
        session_id: "s1".to_string(),
        agent_messages: "hi".to_string(),
        all_messages: vec![e1, e2],
        return_all_messages: true,
        error: None,
    };
    let (ok, text) = render_tool_response(&result);
    assert!(ok);
    assert!(text.contains("all_messages: 2 events captured"));
    assert!(text.contains("Full event log:"));
}

#[test]
fn test_render_failure_uses_error_text() {
    let result = GeminiResult {
        success: false,
        session_id: "s1".to_string(),
        agent_messages: String::new(),
        all_messages: Vec::new(),
        return_all_messages: false,
        error: Some("gemini error: boom".to_string()),
    };
    let (ok, text) = render_tool_response(&result);
    assert!(!ok);
    assert_eq!(text, "gemini error: boom");
}

#[test]
fn test_render_failure_without_error_text() {
    let result = GeminiResult {
        success: false,
        session_id: String::new(),
        agent_messages: String::new(),
        all_messages: Vec::new(),
        return_all_messages: false,
        error: None,
    };
    let (ok, text) = render_tool_response(&result);
    assert!(!ok);
    assert_eq!(text, "Unknown error");
}

#[test]
fn test_render_failure_with_captured_events() {
    let e1: serde_json::Value = serde_json::from_str("{\"a\": 1}").unwrap();
    let result = GeminiResult {
        success: false,
        session_id: String::new(),
        agent_messages: String::new(),
        all_messages: vec![e1],
        return_all_messages: true,
        error: Some("it broke".to_string()),
    };
    let (ok, text) = render_tool_response(&result);
    assert!(!ok);
    assert!(text.starts_with("it broke"));
    assert!(text.contains("Captured 1 events before failure:"));
}
