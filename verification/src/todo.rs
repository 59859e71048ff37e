//! The task-list tool's logic: what a request asks for and how a list is
//! displayed. The snapshot file itself is read and written by the
//! surrounding process.

use vstd::prelude::*;
use crate::text::{spec_dec, u64_to_dec};
use crate::tools::ToolResult;

verus! {

/// Tool for managing a task list.
pub struct TodoTool;

/// Where one task stands.
#[derive(Clone, Copy, Debug, PartialEq, Eq, Structural)]
pub enum TodoStatus {
    Pending,
    InProgress,
    Completed,
}

/// One task: what it is, where it stands, and its active phrasing.
#[derive(Clone, Debug)]
pub struct TodoItem {
    pub content: String,
    pub status: TodoStatus,
    pub active_form: String,
}

/// What a task-list request asks for.
#[derive(Clone, Copy, Debug, PartialEq, Eq, Structural)]
pub enum TodoAction {
    /// Display the current list.
    ReadList,
    /// Replace the list with the one supplied.
    WriteList,
}

/// The marker shown for a status.
pub open spec fn todo_icon(s: TodoStatus) -> Seq<char> {
    match s {
        TodoStatus::Pending => "[ ]"@,
        TodoStatus::InProgress => "[\u{2192}]"@,
        TodoStatus::Completed => "[\u{2713}]"@,
    }
}

/// One displayed task: its one-based number, its marker, its content.
pub open spec fn todo_line(idx: nat, t: TodoItem) -> Seq<char> {
    spec_dec(idx) + ". "@ + todo_icon(t.status) + " "@ + t.content@ + "\n"@
}

/// The displayed rows of a list, one per task in order.
pub open spec fn todo_rows(items: Seq<TodoItem>) -> Seq<char>
    decreases items.len(),
{
    if items.len() == 0 {
        Seq::<char>::empty()
    } else {
        todo_rows(items.drop_last()) + todo_line(items.len() as nat, items.last())
    }
}

/// The full display of a list under its heading.
pub open spec fn spec_format_todos(items: Seq<TodoItem>) -> Seq<char> {
    "Current todos:\n\n"@ + todo_rows(items)
}

/// Display a task list: a heading, then each task numbered, marked by its
/// status, and named.
pub fn format_todos(todos: &Vec<TodoItem>) -> (r: String)
    ensures
        r@ == spec_format_todos(todos@),
{
    let mut out = String::from_str("Current todos:\n\n");
    let n = todos.len();
    let mut i: usize = 0;
    proof {
        assert(todos@.take(0) =~= Seq::<TodoItem>::empty());
        assert(out@ =~= spec_format_todos(todos@.take(0)));
    }
    while i < n
        invariant
            i <= n,
            n == todos@.len(),
            out@ == spec_format_todos(todos@.take(i as int)),
        decreases n - i,
    {
        out.append(u64_to_dec((i + 1) as u64).as_str());
        out.append(". ");
        match todos[i].status {
            TodoStatus::Pending => out.append("[ ]"),
            TodoStatus::InProgress => out.append("[\u{2192}]"),
            TodoStatus::Completed => out.append("[\u{2713}]"),
        }
        out.append(" ");
        out.append(todos[i].content.as_str());
        out.append("\n");
        proof {
            assert(todos@.take(i + 1).drop_last() =~= todos@.take(i as int));
            assert(todos@.take(i + 1).last() == todos@[i as int]);
            assert(out@ =~= spec_format_todos(todos@.take(i + 1)));
        }
        i += 1;
    }
    proof {
        assert(todos@.take(n as int) =~= todos@);
    }
    out
}

impl TodoTool {
    pub fn name(&self) -> (r: &'static str)
        ensures
            r@ == "todo"@,
    {
        "todo"
    }

    pub fn description(&self) -> (r: &'static str)
        ensures
            r@ == "Manages a task list for tracking progress"@,
    {
        "Manages a task list for tracking progress"
    }

    /// What a request asks for: a read when it says so or supplies no
    /// list, a write otherwise.
    pub fn plan(&self, action: Option<&String>, has_todos: bool) -> (r: TodoAction)
        ensures
            r is ReadList <==> ((action matches Some(a) && a@ == "read"@) || !has_todos),
    {
        let is_read = match action {
            Some(a) => crate::text::str_eq(a.as_str(), "read"),
            None => false,
        };
        if is_read || !has_todos {
            TodoAction::ReadList
        } else {
            TodoAction::WriteList
        }
    }

    /// The result of a read: the stored list displayed, or a note that
    /// none exists yet.
    pub fn read_outcome(&self, stored: Option<&Vec<TodoItem>>) -> (r: ToolResult)
        ensures
            r.success,
            r.error is None,
            stored matches Some(items) ==> r.output@ == spec_format_todos(items@),
            stored is None ==> r.output@ == "No todos found"@,
    {
        match stored {
            Some(items) => ToolResult::success(format_todos(items)),
            None => ToolResult::success(String::from_str("No todos found")),
        }
    }

    /// The result of a write: the new list displayed back.
    pub fn write_outcome(&self, todos: &Vec<TodoItem>) -> (r: ToolResult)
        ensures
            r.success,
            r.error is None,
            r.output@ == spec_format_todos(todos@),
    {
        ToolResult::success(format_todos(todos))
    }
}

} // verus!
