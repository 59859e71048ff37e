//! The uniform result type that every execution strategy produces, and the
//! parameter envelope that tool invocations carry.

use vstd::prelude::*;

verus! {

/// Parameters handed to a tool: the arguments as one serialized JSON document.
#[derive(Clone, Debug)]
pub struct ToolParams {
    pub data: String,
}

/// Result of one tool execution. On success `output` carries the payload and
/// `error` is absent; on failure `error` carries the message and `output` is
/// empty. The two are mutually exclusive by construction.
#[derive(Clone, Debug)]
pub struct ToolResult {
    pub success: bool,
    pub output: String,
    pub error: Option<String>,
}

impl ToolResult {
    /// Output and error are not both populated.
    pub open spec fn wf(self) -> bool {
        &&& self.success ==> self.error is None
        &&& !self.success ==> self.error is Some && self.output@.len() == 0
    }

    pub fn success(output: String) -> (r: ToolResult)
        ensures
            r.success,
            r.output == output,
            r.error is None,
            r.wf(),
    {
        ToolResult { success: true, output, error: None }
    }

    pub fn error(error: String) -> (r: ToolResult)
        ensures
            !r.success,
            r.output@.len() == 0,
            r.error == Some(error),
            r.wf(),
    {
        ToolResult { success: false, output: String::new(), error: Some(error) }
    }
}

} // verus!
