//! The two out-of-process execution strategies. The library decides and
//! interprets; the surrounding process performs the blocking work (spawn,
//! poll, kill, HTTP) and reports what it observed as an event.

use vstd::prelude::*;
use crate::tools::ToolResult;
use crate::text::{spec_dec, spec_dec_int, u64_to_dec, i64_to_dec};
use crate::json::{esc_json, escape_json, tool_result_of_json, parse_tool_result_text,
    rpc_reply_of_json, parse_rpc_reply_text};

verus! {

/// The timeout applied when a definition names none.
pub fn effective_timeout_ms(t: Option<u64>) -> (r: u64)
    ensures
        r == match t {
            Some(v) => v,
            None => 120000u64,
        },
{
    match t {
        Some(v) => v,
        None => 120000,
    }
}

/// How long the subprocess strategy waits between liveness polls.
pub fn poll_interval_ms() -> (r: u64)
    ensures
        r == 100,
{
    100
}

/// What to do with a child that is still running.
#[derive(Clone, Copy, Debug, PartialEq, Eq, Structural)]
pub enum PollDecision {
    /// Wait one poll interval and look again.
    Wait,
    /// The budget is spent: kill the child and report a timeout.
    Terminate,
}

/// Decide whether a still-running child has exhausted its budget. The
/// child is terminated exactly when the elapsed wall-clock time has
/// reached the timeout.
pub fn poll_decision(elapsed_ms: u64, timeout_ms: u64) -> (d: PollDecision)
    ensures
        d is Terminate <==> elapsed_ms >= timeout_ms,
{
    if elapsed_ms >= timeout_ms {
        PollDecision::Terminate
    } else {
        PollDecision::Wait
    }
}

/// What the surrounding process observed of a spawned script.
#[derive(Debug)]
pub enum ScriptEvent {
    /// The child exited in time; its status and captured streams.
    Exited { ok: bool, code: Option<i32>, stdout: String, stderr: String },
    /// The timeout elapsed first and the child was killed.
    TimedOut,
}

/// "Script not found: <path>"
pub open spec fn script_not_found_msg(path: Seq<char>) -> Seq<char> {
    "Script not found: "@ + path
}

/// "Script exited with code <code>: <stderr>"
pub open spec fn script_exit_msg(code: int, stderr: Seq<char>) -> Seq<char> {
    "Script exited with code "@ + spec_dec_int(code) + ": "@ + stderr
}

/// "Script execution timed out after <ms>ms"
pub open spec fn script_timeout_msg(ms: nat) -> Seq<char> {
    "Script execution timed out after "@ + spec_dec(ms) + "ms"@
}

/// The exit code reported for a child, with the placeholder used when the
/// platform reports none.
pub open spec fn spec_exit_code(code: Option<i32>) -> int {
    match code {
        Some(v) => v as int,
        None => -1,
    }
}

/// The recoverable result for a script whose file does not exist.
pub fn script_missing_result(script_path: &str) -> (r: ToolResult)
    ensures
        !r.success,
        r.output@.len() == 0,
        r.error matches Some(e) && e@ == script_not_found_msg(script_path@),
{
    let mut e = String::from_str("Script not found: ");
    e.append(script_path);
    ToolResult::error(e)
}

/// Turn what was observed of a spawned script into the uniform result:
/// on a clean exit the standard output is read as a structured result
/// where it parses as one and taken verbatim otherwise; a failing exit
/// yields an error naming the exit code and the standard error text; a
/// timeout yields an error naming the budget.
pub fn script_outcome(ev: ScriptEvent, timeout_ms: u64) -> (r: ToolResult)
    ensures
        ev is TimedOut ==> !r.success && r.output@.len() == 0 && (r.error matches Some(e) && e@
            == script_timeout_msg(timeout_ms as nat)),
        ev matches ScriptEvent::Exited { ok, code, stdout, stderr } ==> if ok {
            match tool_result_of_json(stdout@) {
                Some(t) => r.success == t.0 && r.output@ == t.1 && r.error.deep_view() == t.2,
                None => r.success && r.output == stdout && r.error is None,
            }
        } else {
            &&& !r.success
            &&& r.output@.len() == 0
            &&& (r.error matches Some(e) && e@ == script_exit_msg(spec_exit_code(code), stderr@))
        },
{
    match ev {
        ScriptEvent::Exited { ok, code, stdout, stderr } => {
            if ok {
                match parse_tool_result_text(stdout.as_str()) {
                    Some(t) => ToolResult { success: t.0, output: t.1, error: t.2 },
                    None => ToolResult::success(stdout),
                }
            } else {
                let c: i64 = match code {
                    Some(v) => v as i64,
                    None => -1,
                };
                let mut e = String::from_str("Script exited with code ");
                e.append(i64_to_dec(c).as_str());
                e.append(": ");
                e.append(stderr.as_str());
                proof {
                    reveal_strlit(": ");
                }
                ToolResult::error(e)
            }
        },
        ScriptEvent::TimedOut => {
            let mut e = String::from_str("Script execution timed out after ");
            e.append(u64_to_dec(timeout_ms).as_str());
            e.append("ms");
            ToolResult::error(e)
        },
    }
}

/// The request envelope sent for one remote tool call: protocol version,
/// the method name, the tool name and its arguments, and a request id.
/// The arguments text is embedded as it stands.
pub open spec fn rpc_request_body(name: Seq<char>, args: Seq<char>) -> Seq<char> {
    "{\"jsonrpc\":\"2.0\",\"method\":\"tools/call\",\"params\":{\"name\":\""@ + esc_json(name)
        + "\",\"arguments\":"@ + args + "},\"id\":1}"@
}

/// Build the request envelope for one remote tool call.
pub fn build_rpc_request(name: &str, args: &str) -> (r: String)
    ensures
        r@ == rpc_request_body(name@, args@),
{
    let mut r = String::from_str("{\"jsonrpc\":\"2.0\",\"method\":\"tools/call\",\"params\":{\"name\":\"");
    r.append(escape_json(name).as_str());
    r.append("\",\"arguments\":");
    r.append(args);
    r.append("},\"id\":1}");
    r
}

/// "MCP server returned status <status>: <body>"
pub open spec fn mcp_status_msg(status: Seq<char>, body: Seq<char>) -> Seq<char> {
    "MCP server returned status "@ + status + ": "@ + body
}

/// "MCP server error: <message>"
pub open spec fn mcp_error_msg(message: Seq<char>) -> Seq<char> {
    "MCP server error: "@ + message
}

/// The error message taken from a reply's error member, with the
/// placeholder used when the member carries no message text.
pub open spec fn spec_mcp_error_text(message: Option<Seq<char>>) -> Seq<char> {
    match message {
        Some(m) => m,
        None => "unknown error"@,
    }
}

/// Turn what came back from a remote tool call into the uniform result.
/// A non-success transport status yields an error naming the status and
/// the response text. A success reply is read as an envelope: an error
/// member yields an error with its message; a result member is read as a
/// structured result where it parses as one and re-serialized into a
/// plain success otherwise; a reply with neither is itself an error. A
/// success reply whose body is not one JSON document aborts the call.
pub fn mcp_outcome(status_ok: bool, status: &str, body: &str) -> (r: Result<ToolResult, String>)
    ensures
        !status_ok ==> (r matches Ok(t) && !t.success && t.output@.len() == 0 && (t.error matches
            Some(e) && e@ == mcp_status_msg(status@, body@))),
        status_ok ==> match rpc_reply_of_json(body@) {
            None => r is Err,
            Some(reply) => r matches Ok(t) && match reply.0 {
                Some(message) => !t.success && t.output@.len() == 0 && (t.error matches Some(e)
                    && e@ == mcp_error_msg(spec_mcp_error_text(message))),
                None => match reply.1 {
                    Some(res) => match tool_result_of_json(res) {
                        Some(p) => t.success == p.0 && t.output@ == p.1 && t.error.deep_view()
                            == p.2,
                        None => t.success && t.output@ == res && t.error is None,
                    },
                    None => !t.success && t.output@.len() == 0 && (t.error matches Some(e) && e@
                        == "MCP server response missing result field"@),
                },
            },
        },
{
    if !status_ok {
        let mut e = String::from_str("MCP server returned status ");
        e.append(status);
        e.append(": ");
        e.append(body);
        proof {
            reveal_strlit(": ");
        }
        return Ok(ToolResult::error(e));
    }
    match parse_rpc_reply_text(body) {
        None => Err(String::from_str("Failed to parse MCP server response")),
        Some((error_member, result_member)) => {
            match error_member {
                Some(message) => {
                    let mut e = String::from_str("MCP server error: ");
                    match message {
                        Some(m) => e.append(m.as_str()),
                        None => e.append("unknown error"),
                    }
                    Ok(ToolResult::error(e))
                },
                None => {
                    match result_member {
                        Some(res) => {
                            match parse_tool_result_text(res.as_str()) {
                                Some(t) => Ok(
                                    ToolResult { success: t.0, output: t.1, error: t.2 },
                                ),
                                None => Ok(ToolResult::success(res)),
                            }
                        },
                        None => Ok(
                            ToolResult::error(
                                String::from_str("MCP server response missing result field"),
                            ),
                        ),
                    }
                },
            }
        },
    }
}

/// Relies on shellexpand::tilde: a path with no leading tilde comes back
/// unchanged; a leading tilde is replaced by the user's home directory
/// when one is known, so nothing exact can be said of that case.
#[verifier::external_body]
pub fn expand_tilde(path: &str) -> (r: String)
    ensures
        (path@.len() == 0 || path@[0] != '~') ==> r@ == path@,
{
    shellexpand::tilde(path).to_string()
}

} // verus!
