use gemini_mcp_rs::gemini::{
    apply_prompt_prefix, build_args, get_default_timeout, resolve_binary, resolve_timeout,
    timeout_error_message, validate_options, Options,
};

#[test]
fn test_options_creation() {
    let opts = Options {
        prompt: "test prompt".to_string(),
        sandbox: false,
        session_id: None,
        return_all_messages: false,
        model: None,
        timeout_secs: None,
    };

    assert_eq!(opts.prompt, "test prompt");
    assert!(!opts.sandbox);
}

#[test]
fn test_options_with_session() {
    let opts = Options {
        prompt: "resume task".to_string(),
        sandbox: true,
        session_id: Some("test-session-123".to_string()),
        return_all_messages: true,
        model: Some("gemini-pro".to_string()),
        timeout_secs: Some(300),
    };

    assert_eq!(opts.session_id, Some("test-session-123".to_string()));
    assert_eq!(opts.model, Some("gemini-pro".to_string()));
    assert!(opts.return_all_messages);
    assert!(opts.sandbox);
}

#[test]
fn test_options_validation() {
    let opts = Options {
        prompt: "test".to_string(),
        sandbox: true,
        session_id: Some("session-123".to_string()),
        return_all_messages: true,
        model: Some("gemini-pro".to_string()),
        timeout_secs: Some(300),
    };

    assert_eq!(opts.prompt, "test");
    assert!(opts.sandbox);
    assert_eq!(opts.session_id, Some("session-123".to_string()));
    assert!(opts.return_all_messages);
    assert_eq!(opts.model, Some("gemini-pro".to_string()));
    assert_eq!(opts.timeout_secs, Some(300));
}

#[test]
fn test_timeout_validation_in_run() {
    let opts = Options {
        prompt: "test".to_string(),
        sandbox: false,
        session_id: None,
        return_all_messages: false,
        model: None,
        timeout_secs: Some(0),
    };

    let result = validate_options(&opts);
    assert!(result.is_err());
    let err_msg = result.unwrap_err();
    assert!(err_msg.contains("timeout_secs"));
    assert!(err_msg.contains("1"));
    assert!(err_msg.contains("3600"));
}

#[test]
fn test_timeout_validation_above_max() {
    let opts = Options {
        prompt: "test".to_string(),
        sandbox: false,
        session_id: None,
        return_all_messages: false,
        model: None,
        timeout_secs: Some(3601),
    };

    let result = validate_options(&opts);
    assert!(result.is_err());
    let err_msg = result.unwrap_err();
    assert!(err_msg.contains("timeout_secs"));
}

#[test]
fn test_timeout_validation_valid_boundaries() {
    let opts_min = Options {
        prompt: "test".to_string(),
        sandbox: false,
        session_id: None,
        return_all_messages: false,
        model: None,
        timeout_secs: Some(1),
    };
    if let Err(e) = validate_options(&opts_min) {
        assert!(!e.contains("timeout_secs"), "Should not fail on timeout validation");
    }

    let opts_max = Options {
        prompt: "test".to_string(),
        sandbox: false,
        session_id: None,
        return_all_messages: false,
        model: None,
        timeout_secs: Some(3600),
    };
    if let Err(e) = validate_options(&opts_max) {
        assert!(!e.contains("timeout_secs"), "Should not fail on timeout validation");
    }
}

#[test]
fn test_timeout_boundary_rejection() {
    for bad in [0u64, 3601, u64::MAX] {
        let opts = Options {
            prompt: "test".to_string(),
            sandbox: false,
            session_id: None,
            return_all_messages: false,
            model: None,
            timeout_secs: Some(bad),
        };
        assert!(validate_options(&opts).is_err(), "timeout {} must be rejected", bad);
    }
}

#[test]
fn test_blank_prompt_rejected() {
    let opts = Options {
        prompt: "  \t\n ".to_string(),
        sandbox: false,
        session_id: None,
        return_all_messages: false,
        model: None,
        timeout_secs: None,
    };
    let result = validate_options(&opts);
    assert!(result.is_err());
    assert_eq!(result.unwrap_err(), "Prompt must be a non-empty, non-whitespace string");
}

#[test]
fn test_get_default_timeout_env_var() {
    assert_eq!(get_default_timeout(None), 600);
    assert_eq!(get_default_timeout(Some("300")), 300);
    assert_eq!(get_default_timeout(Some("1")), 1);
    assert_eq!(get_default_timeout(Some("3600")), 3600);
    assert_eq!(get_default_timeout(Some("  300  ")), 300);
    assert_eq!(get_default_timeout(Some("invalid")), 600);
    assert_eq!(get_default_timeout(Some("0")), 600);
    assert_eq!(get_default_timeout(Some("3601")), 600);
    assert_eq!(get_default_timeout(Some("-100")), 600);
    assert_eq!(get_default_timeout(Some("")), 600);
    assert_eq!(get_default_timeout(Some("300.5")), 600);
    assert_eq!(get_default_timeout(Some("0300")), 300);
    assert_eq!(get_default_timeout(Some("999999999999999999999")), 600);
    assert_eq!(get_default_timeout(Some("300s")), 600);
    assert_eq!(get_default_timeout(Some("\t300\t")), 300);
    assert_eq!(get_default_timeout(Some("\n300\n")), 300);
}

#[test]
fn test_resolve_timeout_prefers_request() {
    assert_eq!(resolve_timeout(Some(42), Some("300")), 42);
    assert_eq!(resolve_timeout(None, Some("300")), 300);
    assert_eq!(resolve_timeout(None, None), 600);
}

#[test]
fn test_build_command_basic() {
    let opts = Options {
        prompt: "test prompt".to_string(),
        sandbox: false,
        session_id: None,
        return_all_messages: false,
        model: None,
        timeout_secs: None,
    };

    let args = build_args(&opts);
    let program = resolve_binary(None);

    assert!(program == "gemini" || program.contains("gemini"));
    assert_eq!(args, vec!["--prompt", "test prompt", "-o", "stream-json"]);
}

#[test]
fn test_build_command_with_all_options() {
    let opts = Options {
        prompt: "complex prompt".to_string(),
        sandbox: true,
        session_id: Some("session-123".to_string()),
        return_all_messages: true,
        model: Some("gemini-pro".to_string()),
        timeout_secs: Some(120),
    };

    let args = build_args(&opts);
    let program = resolve_binary(None);

    assert!(program == "gemini" || program.contains("gemini"));
    assert_eq!(
        args,
        vec![
            "--prompt",
            "complex prompt",
            "-o",
            "stream-json",
            "--sandbox",
            "--model",
            "gemini-pro",
            "--resume",
            "session-123",
        ]
    );
}

#[test]
fn test_build_command_with_session_only() {
    let opts = Options {
        prompt: "resume".to_string(),
        sandbox: false,
        session_id: Some("abc-123".to_string()),
        return_all_messages: false,
        model: None,
        timeout_secs: None,
    };

    let args = build_args(&opts);
    let program = resolve_binary(None);

    assert!(program == "gemini" || program.contains("gemini"));
    assert_eq!(args, vec!["--prompt", "resume", "-o", "stream-json", "--resume", "abc-123"]);
}

#[test]
fn test_resolve_binary_override() {
    assert_eq!(resolve_binary(Some("/usr/local/bin/gem".to_string())), "/usr/local/bin/gem");
    assert_eq!(resolve_binary(None), "gemini");
}

#[test]
fn test_timeout_error_message_wording() {
    assert_eq!(timeout_error_message(1), "Gemini command timed out after 1 seconds");
    assert_eq!(timeout_error_message(600), "Gemini command timed out after 600 seconds");
}

#[test]
fn test_apply_prompt_prefix() {
    assert_eq!(
        apply_prompt_prefix(Some("be brief".to_string()), "do it".to_string()),
        "be brief\ndo it"
    );
    assert_eq!(apply_prompt_prefix(Some("  \n ".to_string()), "do it".to_string()), "do it");
    assert_eq!(apply_prompt_prefix(None, "do it".to_string()), "do it");
    let oversized = "x".repeat(100001);
    assert_eq!(apply_prompt_prefix(Some(oversized), "do it".to_string()), "do it");
}
