use code_agent::executors::{
    build_rpc_request, effective_timeout_ms, mcp_outcome, poll_decision, poll_interval_ms,
    script_missing_result, script_outcome, PollDecision, ScriptEvent,
};

#[test]
fn poll_terminates_exactly_at_the_timeout() {
    assert!(matches!(poll_decision(120000, 120000), PollDecision::Terminate));
    assert!(matches!(poll_decision(120001, 120000), PollDecision::Terminate));
    assert!(matches!(poll_decision(119999, 120000), PollDecision::Wait));
    assert!(matches!(poll_decision(0, 120000), PollDecision::Wait));
    assert_eq!(poll_interval_ms(), 100);
    assert_eq!(effective_timeout_ms(None), 120000);
    assert_eq!(effective_timeout_ms(Some(250)), 250);
}

#[test]
fn timeout_outcome_names_the_budget() {
    let r = script_outcome(ScriptEvent::TimedOut, 120000);
    assert!(!r.success);
    assert_eq!(r.output, "");
    assert_eq!(
        r.error.as_deref(),
        Some("Script execution timed out after 120000ms")
    );
}

#[test]
fn failing_exit_names_the_code() {
    let r = script_outcome(
        ScriptEvent::Exited {
            ok: false,
            code: Some(3),
            stdout: String::new(),
            stderr: "boom".to_string(),
        },
        120000,
    );
    assert!(!r.success);
    assert_eq!(r.error.as_deref(), Some("Script exited with code 3: boom"));

    let r = script_outcome(
        ScriptEvent::Exited {
            ok: false,
            code: None,
            stdout: String::new(),
            stderr: String::new(),
        },
        120000,
    );
    assert_eq!(r.error.as_deref(), Some("Script exited with code -1: "));
}

#[test]
fn structured_stdout_is_taken_as_the_result() {
    let r = script_outcome(
        ScriptEvent::Exited {
            ok: true,
            code: Some(0),
            stdout: "{\"success\":false,\"output\":\"\",\"error\":\"nope\"}".to_string(),
            stderr: String::new(),
        },
        120000,
    );
    assert!(!r.success);
    assert_eq!(r.error.as_deref(), Some("nope"));
}

#[test]
fn plain_stdout_is_a_plain_success() {
    let r = script_outcome(
        ScriptEvent::Exited {
            ok: true,
            code: Some(0),
            stdout: "hello there".to_string(),
            stderr: String::new(),
        },
        120000,
    );
    assert!(r.success);
    assert_eq!(r.output, "hello there");
    assert!(r.error.is_none());
}

#[test]
fn missing_script_is_recoverable() {
    let r = script_missing_result("~/tools/x.sh");
    assert!(!r.success);
    assert_eq!(r.error.as_deref(), Some("Script not found: ~/tools/x.sh"));
}

#[test]
fn rpc_request_envelope_is_exact() {
    let body = build_rpc_request("mytool", "{\"a\":1}");
    assert_eq!(
        body,
        "{\"jsonrpc\":\"2.0\",\"method\":\"tools/call\",\"params\":{\"name\":\"mytool\",\"arguments\":{\"a\":1}},\"id\":1}"
    );
}

#[test]
fn rpc_request_escapes_the_tool_name() {
    let body = build_rpc_request("a\"b\\c", "{}");
    assert_eq!(
        body,
        "{\"jsonrpc\":\"2.0\",\"method\":\"tools/call\",\"params\":{\"name\":\"a\\\"b\\\\c\",\"arguments\":{}},\"id\":1}"
    );
}

#[test]
fn json_escaping_covers_control_characters() {
    let out = code_agent::json::escape_json("a\"b\\c\nd\te\r\u{8}\u{c}\u{1}");
    assert_eq!(out, "a\\\"b\\\\c\\nd\\te\\r\\b\\f\\u0001");
}

#[test]
fn transport_failure_becomes_a_status_error() {
    let r = mcp_outcome(false, "500 Internal Server Error", "oops").unwrap();
    assert!(!r.success);
    assert_eq!(
        r.error.as_deref(),
        Some("MCP server returned status 500 Internal Server Error: oops")
    );
}

#[test]
fn error_envelope_is_reported_verbatim() {
    let r = mcp_outcome(true, "200 OK", "{\"error\":{\"message\":\"bad\"}}").unwrap();
    assert!(!r.success);
    assert_eq!(r.error.as_deref(), Some("MCP server error: bad"));

    let r = mcp_outcome(true, "200 OK", "{\"error\":{}}").unwrap();
    assert_eq!(r.error.as_deref(), Some("MCP server error: unknown error"));
}

#[test]
fn result_envelope_is_parsed_or_stringified() {
    let r = mcp_outcome(
        true,
        "200 OK",
        "{\"result\":{\"success\":true,\"output\":\"fine\"}}",
    )
    .unwrap();
    assert!(r.success);
    assert_eq!(r.output, "fine");

    let r = mcp_outcome(true, "200 OK", "{\"result\":{\"x\":1}}").unwrap();
    assert!(r.success);
    assert_eq!(r.output, "{\"x\":1}");
}

#[test]
fn missing_result_member_is_an_error() {
    let r = mcp_outcome(true, "200 OK", "{\"id\":1}").unwrap();
    assert!(!r.success);
    assert_eq!(
        r.error.as_deref(),
        Some("MCP server response missing result field")
    );
}

#[test]
fn unparseable_reply_aborts_the_call() {
    assert!(mcp_outcome(true, "200 OK", "not json").is_err());
}
