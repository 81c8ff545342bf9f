use gemini_mcp_rs::aggregate::Aggregator;

#[test]
fn test_blank_stdout_lines_skipped() {
    let mut agg = Aggregator::new(false);
    agg.handle_stdout_line("   \t  ");
    agg.handle_stdout_line("");
    assert!(agg.non_json_lines.is_empty());
    assert!(!agg.valid_json_seen);
    assert_eq!(agg.result.agent_messages, "");
}

#[test]
fn test_decode_failure_recorded_twice() {
    let mut agg = Aggregator::new(false);
    agg.handle_stdout_line("not json at all");
    agg.handle_stdout_line("not json at all");
    assert_eq!(agg.non_json_lines, vec!["not json at all", "not json at all"]);
    assert!(!agg.valid_json_seen);
    assert!(agg.result.success);
    assert_eq!(agg.result.agent_messages, "");
    assert_eq!(agg.result.session_id, "");
    assert_eq!(agg.result.error, None);
}

#[test]
fn test_non_json_lines_capped() {
    let mut agg = Aggregator::new(false);
    for i in 0..1500 {
        agg.handle_stdout_line(&format!("noise {}", i));
    }
    assert_eq!(agg.non_json_lines.len(), 1000);
    assert_eq!(agg.non_json_lines[0], "noise 0");
    assert_eq!(agg.non_json_lines[999], "noise 999");
}

#[test]
fn test_stdout_lines_trimmed_before_decoding() {
    let mut agg = Aggregator::new(false);
    agg.handle_stdout_line("  {\"session_id\": \"s1\"}  ");
    assert!(agg.valid_json_seen);
    assert_eq!(agg.result.session_id, "s1");
    assert!(agg.non_json_lines.is_empty());
}

#[test]
fn test_stderr_lines_joined_with_newlines() {
    let mut agg = Aggregator::new(false);
    agg.handle_stderr_line("warning one");
    agg.handle_stderr_line("warning two");
    assert_eq!(agg.stderr_output, "warning one\nwarning two");
    assert!(!agg.stderr_truncated);
}

#[test]
fn test_stderr_truncated_at_cap() {
    let mut agg = Aggregator::new(false);
    let long = "x".repeat(150000);
    agg.handle_stderr_line(&long);
    assert!(agg.stderr_truncated);
    assert!(agg.stderr_output.ends_with("\n... (stderr truncated)"));
    assert_eq!(agg.stderr_output.len(), 100000 + "\n... (stderr truncated)".len());
    agg.handle_stderr_line("after the cap");
    assert!(!agg.stderr_output.contains("after the cap"));
}

#[test]
fn test_scenario_success() {
    let mut agg = Aggregator::new(false);
    agg.handle_stdout_line("{\"session_id\":\"s1\"}");
    agg.handle_stdout_line("{\"type\":\"message\",\"role\":\"assistant\",\"content\":\"hello\"}");
    let result = agg.finish(true, Some(0));
    assert!(result.success);
    assert_eq!(result.session_id, "s1");
    assert_eq!(result.agent_messages, "hello");
    assert_eq!(result.error, None);
}

#[test]
fn test_scenario_only_noise() {
    let mut agg = Aggregator::new(false);
    agg.handle_stdout_line("Starting up...");
    agg.handle_stdout_line("Loading model");
    let result = agg.finish(true, Some(0));
    assert!(!result.success);
    let text = result.error.unwrap();
    assert!(text.contains("No valid JSON output"));
    assert!(text.contains("Starting up..."));
    assert!(text.contains("Loading model"));
}

#[test]
fn test_scenario_exit_failure() {
    let mut agg = Aggregator::new(false);
    agg.handle_stdout_line("{\"session_id\":\"s1\"}");
    agg.handle_stdout_line("{\"type\":\"message\",\"role\":\"assistant\",\"content\":\"partial\"}");
    agg.handle_stderr_line("something went wrong");
    let result = agg.finish(false, Some(1));
    assert!(!result.success);
    assert_eq!(result.session_id, "s1");
    assert_eq!(result.agent_messages, "partial");
    let text = result.error.unwrap();
    assert!(text.contains("gemini command failed with exit code: Some(1)"));
    assert!(text.contains("Stderr: something went wrong"));
}

#[test]
fn test_scenario_exit_failure_without_code() {
    let mut agg = Aggregator::new(false);
    agg.handle_stdout_line("{\"session_id\":\"s1\"}");
    agg.handle_stdout_line("{\"type\":\"message\",\"role\":\"assistant\",\"content\":\"t\"}");
    let result = agg.finish(false, None);
    assert!(!result.success);
    assert!(result.error.unwrap().contains("gemini command failed with exit code: None"));
}

#[test]
fn test_finish_prefers_extracted_error() {
    let mut agg = Aggregator::new(false);
    agg.handle_stdout_line("{\"session_id\":\"s1\"}");
    agg.handle_stdout_line("{\"type\":\"message\",\"role\":\"assistant\",\"content\":\"t\"}");
    agg.handle_stdout_line("{\"type\":\"error\",\"error\":{\"message\":\"ran out of quota\"}}");
    agg.handle_stderr_line("noise");
    let result = agg.finish(false, Some(2));
    assert!(!result.success);
    let text = result.error.unwrap();
    assert!(text.starts_with("gemini error: ran out of quota"));
    assert!(text.contains("Stderr: noise"));
}

#[test]
fn test_failure_includes_non_json_diagnostics() {
    let mut agg = Aggregator::new(false);
    agg.handle_stdout_line("{\"session_id\":\"s1\"}");
    agg.handle_stdout_line("{\"type\":\"message\",\"role\":\"assistant\",\"content\":\"t\"}");
    agg.handle_stdout_line("stray line");
    let result = agg.finish(false, Some(3));
    let text = result.error.unwrap();
    assert!(text.contains("Non-JSON output: stray line"));
}

#[test]
fn test_silent_clean_exit_fails_validation() {
    let agg = Aggregator::new(false);
    let result = agg.finish(true, Some(0));
    assert!(!result.success);
    let text = result.error.unwrap();
    assert!(text.contains("Failed to get `SESSION_ID`"));
    assert!(text.contains("Failed to get `agent_messages`"));
}
