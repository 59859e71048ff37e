//! The shell tool's logic: combining a command's captured streams and
//! synthesizing the uniform result from its exit status. Running the
//! command is the surrounding process's work.

use vstd::prelude::*;
use crate::text::{spec_dec_int, i64_to_dec};
use crate::tools::ToolResult;

verus! {

/// Tool for executing shell commands.
pub struct BashTool;

/// The timeout a command gets when none is given, in milliseconds.
pub fn default_timeout() -> (r: u64)
    ensures
        r == 120000,
{
    120000
}

/// The combined display of a command's captured streams: both labelled
/// when both are present, otherwise whichever is.
pub open spec fn combined_output(stdout: Seq<char>, stderr: Seq<char>) -> Seq<char> {
    if stdout.len() > 0 && stderr.len() > 0 {
        "STDOUT:\n"@ + stdout + "\n\nSTDERR:\n"@ + stderr
    } else if stdout.len() > 0 {
        stdout
    } else {
        stderr
    }
}

/// The debug display of an optional exit code.
pub open spec fn code_display(code: Option<i32>) -> Seq<char> {
    match code {
        Some(v) => "Some("@ + spec_dec_int(v as int) + ")"@,
        None => "None"@,
    }
}

/// "Command failed with exit code: <code>\n<output>"
pub open spec fn bash_failure_msg(code: Option<i32>, output: Seq<char>) -> Seq<char> {
    "Command failed with exit code: "@ + code_display(code) + "\n"@ + output
}

impl BashTool {
    pub fn name(&self) -> (r: &'static str)
        ensures
            r@ == "bash"@,
    {
        "bash"
    }

    pub fn description(&self) -> (r: &'static str)
        ensures
            r@ == "Executes bash commands with optional timeout"@,
    {
        "Executes bash commands with optional timeout"
    }

    /// Turn a finished command's status and captured streams into the
    /// uniform result: the combined streams on success, an error naming
    /// the exit code above them on failure.
    pub fn outcome(&self, success: bool, code: Option<i32>, stdout: String, stderr: String) -> (r:
        ToolResult)
        ensures
            success ==> r.success && r.output@ == combined_output(stdout@, stderr@) && r.error
                is None,
            !success ==> !r.success && r.output@.len() == 0 && (r.error matches Some(e) && e@
                == bash_failure_msg(code, combined_output(stdout@, stderr@))),
    {
        let so_empty = stdout.as_str().is_empty();
        let se_empty = stderr.as_str().is_empty();
        let combined: String = if !so_empty && !se_empty {
            let mut c = String::from_str("STDOUT:\n");
            c.append(stdout.as_str());
            c.append("\n\nSTDERR:\n");
            c.append(stderr.as_str());
            c
        } else if !so_empty {
            stdout
        } else {
            stderr
        };
        if success {
            ToolResult::success(combined)
        } else {
            let mut e = String::from_str("Command failed with exit code: ");
            match code {
                Some(v) => {
                    e.append("Some(");
                    e.append(i64_to_dec(v as i64).as_str());
                    e.append(")");
                },
                None => {
                    e.append("None");
                },
            }
            e.append("\n");
            e.append(combined.as_str());
            proof {
                reveal_strlit("\n");
            }
            ToolResult::error(e)
        }
    }
}

} // verus!
