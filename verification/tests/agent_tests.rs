use code_agent::agent_loop::{AgentLoop, ReplyOutcome};
use code_agent::messages::{FunctionCall, Message, Role, ToolCall};
use code_agent::tool_registry::{DispatchError, ExecutionPlan, ToolRegistry};
use code_agent::tools::{ToolParams, ToolResult};

fn call(id: &str, name: &str, arguments: &str) -> ToolCall {
    ToolCall {
        id: id.to_string(),
        tool_type: "function".to_string(),
        function: FunctionCall { name: name.to_string(), arguments: arguments.to_string() },
    }
}

fn assistant_with_calls(calls: Vec<ToolCall>) -> Message {
    Message {
        role: Role::Assistant,
        content: String::new(),
        tool_calls: Some(calls),
        tool_call_id: None,
    }
}

fn assistant_text(content: &str) -> Message {
    Message {
        role: Role::Assistant,
        content: content.to_string(),
        tool_calls: None,
        tool_call_id: None,
    }
}

#[test]
fn tool_messages_answer_calls_in_order() {
    let mut agent = AgentLoop::new();
    agent.set_system_prompt("be helpful".to_string());
    agent.begin_run("do things".to_string());
    agent.begin_query().unwrap();

    let reply = assistant_with_calls(vec![call("c1", "read", "{}"), call("c2", "bash", "{}")]);
    let outcome = agent.handle_reply(reply);
    assert!(matches!(outcome, ReplyOutcome::ToolCallsRequested { count: 2 }));

    assert_eq!(agent.current_call().unwrap().id, "c1");
    agent.record_tool_result(ToolResult::success("r1".to_string()));
    assert_eq!(agent.current_call().unwrap().id, "c2");
    agent.record_tool_result(ToolResult::error("e2".to_string()));
    assert!(agent.current_call().is_none());

    let h = agent.get_conversation_history();
    assert_eq!(h.len(), 5);
    assert!(matches!(h[0].role, Role::System));
    assert!(matches!(h[1].role, Role::User));
    assert!(matches!(h[2].role, Role::Assistant));
    assert!(matches!(h[3].role, Role::Tool));
    assert!(matches!(h[4].role, Role::Tool));
    assert_eq!(h[3].tool_call_id.as_deref(), Some("c1"));
    assert_eq!(h[3].content, "r1");
    assert_eq!(h[4].tool_call_id.as_deref(), Some("c2"));
    assert_eq!(h[4].content, "Error: e2");

    // the block is complete, so the loop may query again
    agent.begin_query().unwrap();
}

#[test]
fn iteration_limit_stops_the_run_after_exactly_the_ceiling() {
    let mut agent = AgentLoop::new();
    agent.set_max_iterations(3);
    agent.begin_run("loop forever".to_string());

    let mut queries = 0;
    let err = loop {
        match agent.begin_query() {
            Ok(()) => {
                queries += 1;
                let outcome =
                    agent.handle_reply(assistant_with_calls(vec![call("c", "read", "{}")]));
                assert!(matches!(outcome, ReplyOutcome::ToolCallsRequested { count: 1 }));
                agent.record_tool_result(ToolResult::success("ok".to_string()));
            }
            Err(e) => break e,
        }
    };
    assert_eq!(queries, 3);
    assert_eq!(err, "Maximum iterations (3) exceeded");
}

#[test]
fn default_ceiling_is_twenty_five() {
    let mut agent = AgentLoop::new();
    agent.begin_run("loop forever".to_string());
    let mut queries = 0;
    while agent.begin_query().is_ok() {
        queries += 1;
        agent.handle_reply(assistant_with_calls(vec![call("c", "read", "{}")]));
        agent.record_tool_result(ToolResult::success("ok".to_string()));
    }
    assert_eq!(queries, 25);
}

#[test]
fn plain_reply_ends_the_run_with_its_text() {
    let mut agent = AgentLoop::new();
    agent.begin_run("hi".to_string());

    let mut queries = 0;
    agent.begin_query().unwrap();
    queries += 1;
    let outcome = agent.handle_reply(assistant_with_calls(vec![call("c1", "read", "{}")]));
    assert!(matches!(outcome, ReplyOutcome::ToolCallsRequested { .. }));
    agent.record_tool_result(ToolResult::success("data".to_string()));

    agent.begin_query().unwrap();
    queries += 1;
    match agent.handle_reply(assistant_text("all done")) {
        ReplyOutcome::Final { content } => assert_eq!(content, "all done"),
        _ => panic!("expected a final answer"),
    }
    assert_eq!(queries, 2);
}

#[test]
fn clear_history_keeps_only_a_leading_system_prompt() {
    let mut agent = AgentLoop::new();
    agent.set_system_prompt("sys".to_string());
    agent.begin_run("hi".to_string());
    agent.begin_query().unwrap();
    agent.handle_reply(assistant_text("bye"));
    assert_eq!(agent.get_conversation_history().len(), 3);
    agent.clear_history();
    let h = agent.get_conversation_history();
    assert_eq!(h.len(), 1);
    assert!(matches!(h[0].role, Role::System));

    let mut agent = AgentLoop::new();
    agent.begin_run("hi".to_string());
    agent.begin_query().unwrap();
    agent.handle_reply(assistant_text("bye"));
    agent.clear_history();
    assert_eq!(agent.get_conversation_history().len(), 0);
}

#[test]
fn malformed_call_arguments_are_fatal_to_the_call() {
    let c = call("c1", "read", "{\"file_path\":\"x\"}");
    let p = AgentLoop::check_call_arguments(&c).unwrap();
    assert_eq!(p.data, "{\"file_path\":\"x\"}");

    let c = call("c1", "read", "{not json");
    let e = AgentLoop::check_call_arguments(&c).unwrap_err();
    assert_eq!(e, "Failed to parse tool arguments: {not json");
}

#[test]
fn unknown_tool_resolves_after_its_definition_appears() {
    let mut reg = ToolRegistry::new();
    let params = ToolParams { data: "{}".to_string() };

    let err = reg.dispatch("mytool", &params).unwrap_err();
    assert!(matches!(&err, DispatchError::DefinitionNotFound { .. }));
    assert_eq!(err.message(), "Tool definition not found: mytool");

    let content = "{\"name\":\"mytool\",\"description\":\"d\",\"parameters\":{},\"implementation_type\":\"script\",\"script_path\":\"/bin/run.sh\"}";
    reg.install_definition("mytool", "/tools/definitions/mytool.json", content).unwrap();
    assert!(reg.get_tool_definition("mytool").is_some());

    match reg.dispatch("mytool", &params).unwrap() {
        ExecutionPlan::Script { path, raw_path, timeout_ms } => {
            assert_eq!(path, "/bin/run.sh");
            assert_eq!(raw_path, "/bin/run.sh");
            assert_eq!(timeout_ms, None);
        }
        _ => panic!("expected a script plan"),
    }
}

#[test]
fn builtin_dispatch_routes_in_process() {
    let reg = ToolRegistry::new();
    let params = ToolParams { data: "{}".to_string() };
    match reg.dispatch("edit", &params).unwrap() {
        ExecutionPlan::Builtin { name } => assert_eq!(name, "edit"),
        _ => panic!("expected a builtin plan"),
    }
}

#[test]
fn remote_dispatch_carries_the_request_envelope() {
    let mut reg = ToolRegistry::new();
    let content = "{\"name\":\"rtool\",\"description\":\"d\",\"parameters\":{},\"implementation_type\":\"mcp_server\",\"server_url\":\"http://localhost:9\",\"timeout_ms\":700}";
    reg.install_definition("rtool", "/tools/definitions/rtool.json", content).unwrap();
    let params = ToolParams { data: "{\"a\":1}".to_string() };
    match reg.dispatch("rtool", &params).unwrap() {
        ExecutionPlan::Remote { url, request_body, timeout_ms } => {
            assert_eq!(url, "http://localhost:9");
            assert_eq!(timeout_ms, Some(700));
            assert_eq!(
                request_body,
                "{\"jsonrpc\":\"2.0\",\"method\":\"tools/call\",\"params\":{\"name\":\"rtool\",\"arguments\":{\"a\":1}},\"id\":1}"
            );
        }
        _ => panic!("expected a remote plan"),
    }
}

#[test]
fn discovery_skips_malformed_files() {
    let mut reg = ToolRegistry::new();
    let files = vec![
        (
            "/t/definitions/good.json".to_string(),
            "{\"name\":\"good\",\"description\":\"d\",\"parameters\":{}}".to_string(),
        ),
        ("/t/definitions/bad.json".to_string(), "{broken".to_string()),
        (
            "/t/definitions/other.json".to_string(),
            "{\"name\":\"other\",\"description\":\"d\",\"parameters\":{},\"implementation_type\":\"mcp_server\",\"server_url\":\"http://h\"}"
                .to_string(),
        ),
    ];
    let discovered = reg.discover_user_tools(&files);
    assert_eq!(discovered, vec!["good".to_string(), "other".to_string()]);
    assert!(reg.get_tool_definition("good").is_some());
    assert!(reg.get_tool_definition("other").is_some());
    assert!(reg.get_tool_definition("bad").is_none());
}

#[test]
fn registry_advertises_its_definitions() {
    let mut reg = ToolRegistry::new();
    let all = reg.get_tool_definitions();
    assert_eq!(all.len(), 7);
    assert_eq!(all[0].function.name, "read");
    assert_eq!(all[0].tool_type, "function");

    let core = reg.get_core_tool_definitions();
    assert_eq!(core.len(), 2);
    assert_eq!(core[0].function.name, "read");
    assert_eq!(core[1].function.name, "glob");

    reg.set_user_tools_dir("/home/u/.code_agent/tools".to_string());
    assert_eq!(
        reg.definition_path("mytool").as_deref(),
        Some("/home/u/.code_agent/tools/definitions/mytool.json")
    );
}

#[test]
fn tool_results_keep_output_and_error_apart() {
    let r = ToolResult::success("out".to_string());
    assert!(r.success);
    assert_eq!(r.output, "out");
    assert!(r.error.is_none());

    let r = ToolResult::error("bad".to_string());
    assert!(!r.success);
    assert_eq!(r.output, "");
    assert_eq!(r.error.as_deref(), Some("bad"));
}

#[test]
fn message_constructors_set_the_role_fields() {
    let m = Message::system("s".to_string());
    assert!(matches!(m.role, Role::System));
    let m = Message::user("u".to_string());
    assert!(matches!(m.role, Role::User));
    assert!(m.tool_calls.is_none() && m.tool_call_id.is_none());
    let m = Message::tool("t".to_string(), "id1".to_string());
    assert!(matches!(m.role, Role::Tool));
    assert_eq!(m.tool_call_id.as_deref(), Some("id1"));
}
