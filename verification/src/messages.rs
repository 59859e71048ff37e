//! The conversation data model: messages, the tool-call requests an
//! assistant turn may carry, and the schema records advertised to the
//! model.

use vstd::prelude::*;

verus! {

/// Who produced a message.
#[derive(Clone, Copy, Debug, PartialEq, Eq, Structural)]
pub enum Role {
    System,
    User,
    Assistant,
    Tool,
}

/// One model-issued request to invoke a tool, carrying an id so the
/// result can be correlated with the call.
#[derive(Clone, Debug)]
pub struct ToolCall {
    pub id: String,
    pub tool_type: String,
    pub function: FunctionCall,
}

/// The tool name and serialized arguments of one tool call.
#[derive(Clone, Debug)]
pub struct FunctionCall {
    pub name: String,
    pub arguments: String,
}

/// One turn in the conversation. Tool-call requests appear only on
/// assistant turns; a back-reference id appears only on tool turns.
#[derive(Clone, Debug)]
pub struct Message {
    pub role: Role,
    pub content: String,
    pub tool_calls: Option<Vec<ToolCall>>,
    pub tool_call_id: Option<String>,
}

impl Message {
    /// Role-dependent field discipline: tool-call requests only on
    /// assistant turns, a back-reference id only on tool turns.
    pub open spec fn wf(self) -> bool {
        &&& self.tool_calls is Some ==> self.role is Assistant
        &&& self.tool_call_id is Some ==> self.role is Tool
    }

    /// The message is an assistant turn requesting at least one call.
    pub open spec fn spec_has_calls(self) -> bool {
        self.role is Assistant && self.tool_calls is Some && self.tool_calls->0@.len() > 0
    }

    /// The calls the message requests.
    pub open spec fn spec_calls(self) -> Seq<ToolCall> {
        self.tool_calls->0@
    }

    pub fn system(content: String) -> (m: Message)
        ensures
            m.role is System,
            m.content == content,
            m.tool_calls is None,
            m.tool_call_id is None,
            m.wf(),
    {
        Message { role: Role::System, content, tool_calls: None, tool_call_id: None }
    }

    pub fn user(content: String) -> (m: Message)
        ensures
            m.role is User,
            m.content == content,
            m.tool_calls is None,
            m.tool_call_id is None,
            m.wf(),
    {
        Message { role: Role::User, content, tool_calls: None, tool_call_id: None }
    }

    pub fn tool(content: String, call_id: String) -> (m: Message)
        ensures
            m.role is Tool,
            m.content == content,
            m.tool_calls is None,
            m.tool_call_id == Some(call_id),
            m.wf(),
    {
        Message { role: Role::Tool, content, tool_calls: None, tool_call_id: Some(call_id) }
    }
}

/// A tool schema as advertised to the model.
#[derive(Clone, Debug)]
pub struct Tool {
    pub tool_type: String,
    pub function: FunctionDefinition,
}

/// The name, description and parameter schema of one advertised tool.
/// The schema is carried as one serialized JSON document.
#[derive(Clone, Debug)]
pub struct FunctionDefinition {
    pub name: String,
    pub description: String,
    pub parameters: String,
}

} // verus!
