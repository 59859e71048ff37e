//! The agent loop: an append-only conversation driven as a state machine.
//! The surrounding process performs the model query and the tool runs; the
//! loop decides what happens next and keeps the message-ordering invariant:
//! every requested tool call is answered by exactly one tool message, in
//! order, before the next query.

use vstd::prelude::*;
use crate::messages::{Message, Role, ToolCall};
use crate::text::spec_dec;
use crate::tools::{ToolParams, ToolResult};
use crate::json::{parses_as_json, json_text_valid};

verus! {

/// `m` answers the call `c`: a tool message carrying its id.
pub open spec fn tool_reply(m: Message, c: ToolCall) -> bool {
    &&& m.role is Tool
    &&& m.tool_calls is None
    &&& m.tool_call_id matches Some(id) && id@ == c.id@
}

/// The conversation from index `i` on is a sequence of complete turns: an
/// assistant message that requests calls is followed immediately by one
/// tool message per call, in the order the calls were listed, and a tool
/// message stands nowhere else.
pub open spec fn conv_from(s: Seq<Message>, i: int) -> bool
    decreases s.len() - i,
{
    if i < 0 || i >= s.len() {
        true
    } else if s[i].spec_has_calls() {
        let c = s[i].spec_calls();
        &&& i + 1 + c.len() <= s.len()
        &&& (forall|k: int| 0 <= k < c.len() ==> tool_reply(#[trigger] s[i + 1 + k], c[k]))
        &&& conv_from(s, i + 1 + c.len())
    } else if s[i].role is Tool {
        false
    } else {
        conv_from(s, i + 1)
    }
}

/// Every message keeps the role-dependent field discipline.
pub open spec fn msgs_wf(s: Seq<Message>) -> bool {
    forall|i: int| 0 <= i < s.len() ==> (#[trigger] s[i]).wf()
}

/// Where the loop stands between calls.
#[derive(Clone, Copy, Debug, PartialEq, Eq, Structural)]
pub enum Phase {
    /// No run in progress.
    Idle,
    /// A run is in progress and the model may be queried.
    Ready,
    /// A query was issued and its reply is owed.
    AwaitingReply,
    /// The last assistant message requested calls; `next` of them are
    /// answered so far.
    Executing { next: usize },
}

/// The trailing block is in progress: the assistant message `next` tool
/// messages from the end requested more calls than are answered yet, the
/// answers so far match its calls in order, and everything before it is
/// complete turns.
pub open spec fn executing_wf(s: Seq<Message>, next: int) -> bool {
    let a = s.len() - next - 1;
    &&& 0 <= next
    &&& 0 <= a < s.len()
    &&& s[a].role is Assistant
    &&& (s[a].tool_calls matches Some(c) && c@.len() > 0 && next < c@.len() && (forall|k: int|
        0 <= k < next ==> tool_reply(#[trigger] s[a + 1 + k], c@[k])))
    &&& conv_from(s.take(a), 0)
}

/// The conversation state machine: ordered history, an iteration budget,
/// and the phase of the current run.
pub struct AgentLoop {
    messages: Vec<Message>,
    iteration: u64,
    max_iterations: u64,
    phase: Phase,
}

/// What a model reply led to.
pub enum ReplyOutcome {
    /// The reply requested this many tool calls; answer each in turn.
    ToolCallsRequested { count: usize },
    /// The reply was a final answer with this text.
    Final { content: String },
}

/// "Maximum iterations (<n>) exceeded"
pub open spec fn max_iterations_msg(n: nat) -> Seq<char> {
    "Maximum iterations ("@ + spec_dec(n) + ") exceeded"@
}

/// "Failed to parse tool arguments: <args>"
pub open spec fn bad_arguments_msg(args: Seq<char>) -> Seq<char> {
    "Failed to parse tool arguments: "@ + args
}

/// The content of the tool message recording `r`: the output verbatim on
/// success, the error text behind an "Error: " prefix otherwise.
pub open spec fn spec_tool_content(r: ToolResult) -> Seq<char> {
    if r.success {
        r.output@
    } else {
        "Error: "@ + (match r.error {
            Some(e) => e@,
            None => "Unknown error"@,
        })
    }
}

impl AgentLoop {
    /// The conversation so far.
    pub closed spec fn history(self) -> Seq<Message> {
        self.messages@
    }

    /// Where the loop stands.
    pub closed spec fn phase(self) -> Phase {
        self.phase
    }

    /// Model queries issued in the current run.
    pub closed spec fn spec_iteration(self) -> u64 {
        self.iteration
    }

    /// The iteration ceiling.
    pub closed spec fn spec_max_iterations(self) -> u64 {
        self.max_iterations
    }

    /// The loop invariant: the history keeps the message-ordering
    /// discipline, complete where no block is open, with at most the
    /// phase's own block in progress at the end.
    pub open spec fn wf(self) -> bool {
        &&& msgs_wf(self.history())
        &&& match self.phase() {
            Phase::Executing { next } => executing_wf(self.history(), next as int),
            _ => conv_from(self.history(), 0),
        }
    }

    /// A fresh loop: empty history, the default iteration ceiling, no run
    /// in progress.
    pub fn new() -> (r: AgentLoop)
        ensures
            r.wf(),
            r.history().len() == 0,
            r.spec_iteration() == 0,
            r.spec_max_iterations() == 25,
            r.phase() is Idle,
    {
        let r = AgentLoop {
            messages: Vec::new(),
            iteration: 0,
            max_iterations: 25,
            phase: Phase::Idle,
        };
        proof {
            assert(conv_from(r.history(), 0));
        }
        r
    }

    /// Change the iteration ceiling.
    pub fn set_max_iterations(&mut self, n: u64)
        requires
            old(self).wf(),
        ensures
            final(self).wf(),
            final(self).spec_max_iterations() == n,
            final(self).history() == old(self).history(),
            final(self).phase() == old(self).phase(),
            final(self).spec_iteration() == old(self).spec_iteration(),
    {
        self.max_iterations = n;
    }

    /// Append a system message.
    pub fn set_system_prompt(&mut self, system_prompt: String)
        requires
            old(self).wf(),
            !(old(self).phase() is Executing),
        ensures
            final(self).wf(),
            final(self).history().len() == old(self).history().len() + 1,
            final(self).history().take(old(self).history().len() as int) == old(self).history(),
            final(self).history().last().role is System,
            final(self).history().last().content@ == system_prompt@,
            final(self).history().last().tool_calls is None,
            final(self).history().last().tool_call_id is None,
            final(self).phase() == old(self).phase(),
            final(self).spec_iteration() == old(self).spec_iteration(),
            final(self).spec_max_iterations() == old(self).spec_max_iterations(),
    {
        let m = Message::system(system_prompt);
        let ghost gm = m;
        self.messages.push(m);
        proof {
            assert(self.history().take(old(self).history().len() as int) =~= old(self).history());
            lemma_conv_push_plain(old(self).history(), gm, 0);
        }
    }

    /// Begin a run: append the user prompt and reset the query counter.
    pub fn begin_run(&mut self, user_prompt: String)
        requires
            old(self).wf(),
            old(self).phase() is Idle,
        ensures
            final(self).wf(),
            final(self).history().len() == old(self).history().len() + 1,
            final(self).history().take(old(self).history().len() as int) == old(self).history(),
            final(self).history().last().role is User,
            final(self).history().last().content@ == user_prompt@,
            final(self).history().last().tool_calls is None,
            final(self).history().last().tool_call_id is None,
            final(self).phase() is Ready,
            final(self).spec_iteration() == 0,
            final(self).spec_max_iterations() == old(self).spec_max_iterations(),
    {
        let m = Message::user(user_prompt);
        let ghost gm = m;
        self.messages.push(m);
        self.iteration = 0;
        self.phase = Phase::Ready;
        proof {
            assert(self.history().take(old(self).history().len() as int) =~= old(self).history());
            lemma_conv_push_plain(old(self).history(), gm, 0);
        }
    }

    /// Ask leave to query the model. Granted while the current run has
    /// queries left in its budget; the run aborts with an iteration-limit
    /// error exactly when the ceiling many queries have been issued.
    pub fn begin_query(&mut self) -> (r: Result<(), String>)
        requires
            old(self).wf(),
            old(self).phase() is Ready,
        ensures
            final(self).wf(),
            final(self).history() == old(self).history(),
            final(self).spec_max_iterations() == old(self).spec_max_iterations(),
            r is Ok <==> old(self).spec_iteration() < old(self).spec_max_iterations(),
            r is Ok ==> final(self).spec_iteration() == old(self).spec_iteration() + 1
                && final(self).phase() is AwaitingReply,
            r matches Err(e) ==> e@ == max_iterations_msg(old(self).spec_max_iterations() as nat)
                && final(self).phase() is Idle && final(self).spec_iteration() == old(self).spec_iteration(),
    {
        if self.iteration < self.max_iterations {
            self.iteration = self.iteration + 1;
            self.phase = Phase::AwaitingReply;
            Ok(())
        } else {
            self.phase = Phase::Idle;
            let mut e = String::from_str("Maximum iterations (");
            e.append(crate::text::u64_to_dec(self.max_iterations).as_str());
            e.append(") exceeded");
            Err(e)
        }
    }

    /// Record the model's reply. A reply that requests calls opens a
    /// block to be answered call by call; any other reply ends the run
    /// with its text.
    pub fn handle_reply(&mut self, reply: Message) -> (r: ReplyOutcome)
        requires
            old(self).wf(),
            old(self).phase() is AwaitingReply,
            reply.wf(),
            reply.role is Assistant,
        ensures
            final(self).wf(),
            final(self).history().len() == old(self).history().len() + 1,
            final(self).history().take(old(self).history().len() as int) == old(self).history(),
            final(self).history().last() == reply,
            final(self).spec_iteration() == old(self).spec_iteration(),
            final(self).spec_max_iterations() == old(self).spec_max_iterations(),
            reply.spec_has_calls() ==> final(self).phase() == (Phase::Executing { next: 0 }) && (
            r matches ReplyOutcome::ToolCallsRequested { count } && count
                == reply.spec_calls().len()),
            !reply.spec_has_calls() ==> final(self).phase() is Idle && (r matches
                ReplyOutcome::Final { content } && content@ == reply.content@),
    {
        let ghost greply = reply;
        let has_calls: Option<usize> = match &reply.tool_calls {
            Some(c) => if c.len() > 0 {
                Some(c.len())
            } else {
                None
            },
            None => None,
        };
        match has_calls {
            Some(count) => {
                self.messages.push(reply);
                self.phase = Phase::Executing { next: 0 };
                proof {
                    assert(self.history().take(old(self).history().len() as int) =~= old(self).history());
                    let s = self.history();
                    let a = s.len() - 1;
                    assert(s[a] == greply);
                    assert(executing_wf(s, 0));
                }
                ReplyOutcome::ToolCallsRequested { count }
            },
            None => {
                let content = reply.content.clone();
                self.messages.push(reply);
                self.phase = Phase::Idle;
                proof {
                    assert(self.history().take(old(self).history().len() as int) =~= old(self).history());
                    lemma_conv_push_plain(old(self).history(), greply, 0);
                }
                ReplyOutcome::Final { content }
            },
        }
    }

    /// The call now owed an answer, while a block is in progress.
    pub fn current_call(&self) -> (r: Option<&ToolCall>)
        requires
            self.wf(),
        ensures
            match self.phase() {
                Phase::Executing { next } => r matches Some(c) && ({
                    let s = self.history();
                    let a = s.len() - next - 1;
                    s[a].tool_calls matches Some(cc) && *c == cc@[next as int]
                }),
                _ => r is None,
            },
    {
        match self.phase {
            Phase::Executing { next } => {
                let a = self.messages.len() - next - 1;
                match &self.messages[a].tool_calls {
                    Some(c) => Some(&c[next]),
                    None => {
                        proof {
                            assert(false);
                        }
                        None
                    },
                }
            },
            _ => None,
        }
    }

    /// Decode the arguments of one call: they must be one well-formed
    /// JSON document. A malformed argument text is a caller-contract
    /// violation, fatal to the run, not a recoverable tool failure.
    pub fn check_call_arguments(call: &ToolCall) -> (r: Result<ToolParams, String>)
        ensures
            r is Ok <==> parses_as_json(call.function.arguments@),
            r matches Ok(p) ==> p.data@ == call.function.arguments@,
            r matches Err(e) ==> e@ == bad_arguments_msg(call.function.arguments@),
    {
        if json_text_valid(call.function.arguments.as_str()) {
            Ok(ToolParams { data: call.function.arguments.clone() })
        } else {
            let mut e = String::from_str("Failed to parse tool arguments: ");
            e.append(call.function.arguments.as_str());
            Err(e)
        }
    }

    /// Record the result of the call now owed an answer: append the tool
    /// message referencing its id, and move to the next call or back to
    /// querying when the block is complete.
    pub fn record_tool_result(&mut self, result: ToolResult)
        requires
            old(self).wf(),
            old(self).phase() matches Phase::Executing { .. },
        ensures
            final(self).wf(),
            final(self).spec_iteration() == old(self).spec_iteration(),
            final(self).spec_max_iterations() == old(self).spec_max_iterations(),
            old(self).phase() matches Phase::Executing { next } ==> ({
                let s = old(self).history();
                let a = s.len() - next - 1;
                &&& final(self).history().len() == s.len() + 1
                &&& final(self).history().take(s.len() as int) == s
                &&& final(self).history().last().role is Tool
                &&& final(self).history().last().content@ == spec_tool_content(result)
                &&& final(self).history().last().tool_calls is None
                &&& (s[a].tool_calls matches Some(c) && (final(self).history().last().tool_call_id matches Some(id) && id@ == c@[next as int].id@) && (
                if next + 1 < c@.len() {
                    final(self).phase() == (Phase::Executing { next: (next + 1) as usize })
                } else {
                    final(self).phase() is Ready
                }))
            }),
    {
        let ghost gresult = result;
        let next = match self.phase {
            Phase::Executing { next } => next,
            _ => {
                proof {
                    assert(false);
                }
                0
            },
        };
        let a = self.messages.len() - next - 1;
        let (id, total) = match &self.messages[a].tool_calls {
            Some(c) => (c[next].id.clone(), c.len()),
            None => {
                proof {
                    assert(false);
                }
                (String::new(), 0)
            },
        };
        let content = if result.success {
            result.output
        } else {
            let mut e = String::from_str("Error: ");
            match result.error {
                Some(msg) => e.append(msg.as_str()),
                None => e.append("Unknown error"),
            }
            e
        };
        proof {
            assert(content@ == spec_tool_content(gresult));
        }
        let m = Message::tool(content, id);
        let ghost gm = m;
        let ghost pre = *self;
        self.messages.push(m);
        proof {
            let s2 = self.history();
            let s = pre.history();
            assert(s2.take(s.len() as int) =~= s);
            let ai = s.len() - next - 1;
            assert(s2[ai] == s[ai]);
            assert(s[ai].tool_calls matches Some(c) && tool_reply(gm, c@[next as int]));
        }
        if next + 1 < total {
            self.phase = Phase::Executing { next: next + 1 };
            proof {
                let s2 = self.history();
                let s = pre.history();
                let ai = s.len() - next - 1;
                assert(s2.len() - (next + 1) - 1 == ai);
                assert(s2.take(ai) =~= s.take(ai));
                assert forall|k: int|
                    0 <= k < next + 1 implies (s2[ai + 1 + k].tool_calls is None && tool_reply(
                    #[trigger] s2[ai + 1 + k],
                    s2[ai].tool_calls->0[k],
                )) by {
                    if k < next {
                        assert(s2[ai + 1 + k] == s[ai + 1 + k]);
                    } else {
                        assert(s2[ai + 1 + k] == gm);
                    }
                }
                assert(executing_wf(s2, next + 1));
            }
        } else {
            self.phase = Phase::Ready;
            proof {
                let s2 = self.history();
                let s = pre.history();
                let ai = s.len() - next - 1;
                assert(s2.take(ai) =~= s.take(ai));
                assert forall|k: int|
                    0 <= k < next + 1 implies tool_reply(
                    #[trigger] s2[ai + 1 + k],
                    s2[ai].tool_calls->0[k],
                ) by {
                    if k < next {
                        assert(s2[ai + 1 + k] == s[ai + 1 + k]);
                    } else {
                        assert(s2[ai + 1 + k] == gm);
                    }
                }
                lemma_conv_close_block(s2, ai, 0);
            }
        }
    }

    /// The conversation, for display or for the transport.
    pub fn get_conversation_history(&self) -> (r: &Vec<Message>)
        ensures
            r@ == self.history(),
    {
        &self.messages
    }

    /// Reset the history, preserving only a leading system prompt.
    pub fn clear_history(&mut self)
        requires
            old(self).wf(),
            old(self).phase() is Idle,
        ensures
            final(self).wf(),
            final(self).phase() is Idle,
            old(self).history().len() > 0 && old(self).history()[0].role is System ==> final(self).history() =~= seq![old(self).history()[0]],
            !(old(self).history().len() > 0 && old(self).history()[0].role is System) ==> final(self).history().len() == 0,
    {
        if self.messages.len() > 0 {
            let keep = match self.messages[0].role {
                Role::System => true,
                _ => false,
            };
            if keep {
                self.messages.truncate(1);
                proof {
                    assert(self.history() =~= seq![old(self).history()[0]]);
                    assert(conv_from(self.history(), 1));
                    assert(conv_from(self.history(), 0));
                }
                return ;
            }
        }
        self.messages.clear();
        proof {
            assert(conv_from(self.history(), 0));
        }
    }
}

/// In a complete conversation, every tool message answers, by position,
/// exactly one call of the nearest assistant message before it: the call
/// standing `i - a - 1` places into that message's request list, whose id
/// the tool message carries. Everything between the two is a tool message
/// of the same block, so the answers stand in the order the calls were
/// listed.
pub proof fn lemma_tool_message_correlation(s: Seq<Message>, i: int) -> (a: int)
    requires
        conv_from(s, 0),
        0 <= i < s.len(),
        s[i].role is Tool,
    ensures
        0 <= a < i,
        s[a].spec_has_calls(),
        i - a - 1 < s[a].spec_calls().len(),
        tool_reply(s[i], s[a].spec_calls()[i - a - 1]),
        forall|j: int| a < j < i ==> (#[trigger] s[j]).role is Tool,
{
    lemma_tool_message_correlation_from(s, 0, i)
}

proof fn lemma_tool_message_correlation_from(s: Seq<Message>, lo: int, i: int) -> (a: int)
    requires
        conv_from(s, lo),
        0 <= lo <= i < s.len(),
        s[i].role is Tool,
    ensures
        lo <= a < i,
        s[a].spec_has_calls(),
        i - a - 1 < s[a].spec_calls().len(),
        tool_reply(s[i], s[a].spec_calls()[i - a - 1]),
        forall|j: int| a < j < i ==> (#[trigger] s[j]).role is Tool,
    decreases i - lo,
{
    if s[lo].spec_has_calls() {
        let c = s[lo].spec_calls();
        if i < lo + 1 + c.len() {
            assert(i != lo);
            assert(tool_reply(s[lo + 1 + (i - lo - 1)], c[i - lo - 1]));
            assert(tool_reply(s[i], c[i - lo - 1]));
            assert forall|j: int| lo < j < i implies (#[trigger] s[j]).role is Tool by {
                assert(tool_reply(s[lo + 1 + (j - lo - 1)], c[j - lo - 1]));
            }
            lo
        } else {
            lemma_tool_message_correlation_from(s, lo + 1 + c.len(), i)
        }
    } else if s[lo].role is Tool {
        assert(false);
        lo
    } else {
        lemma_tool_message_correlation_from(s, lo + 1, i)
    }
}

/// In a complete conversation, every assistant message that requests
/// calls is followed by exactly as many tool messages as it requested:
/// one answer per call in the order listed, and the first message after
/// the block, if any, is not a tool message.
pub proof fn lemma_assistant_block_complete(s: Seq<Message>, a: int)
    requires
        conv_from(s, 0),
        0 <= a < s.len(),
        s[a].spec_has_calls(),
    ensures
        a + 1 + s[a].spec_calls().len() <= s.len(),
        forall|k: int|
            0 <= k < s[a].spec_calls().len() ==> tool_reply(
                #[trigger] s[a + 1 + k],
                s[a].spec_calls()[k],
            ),
        a + 1 + s[a].spec_calls().len() < s.len() ==> !(s[a + 1 + s[a].spec_calls().len()].role
            is Tool),
{
    lemma_assistant_block_complete_from(s, 0, a);
}

proof fn lemma_assistant_block_complete_from(s: Seq<Message>, lo: int, a: int)
    requires
        conv_from(s, lo),
        0 <= lo <= a < s.len(),
        s[a].spec_has_calls(),
    ensures
        a + 1 + s[a].spec_calls().len() <= s.len(),
        forall|k: int|
            0 <= k < s[a].spec_calls().len() ==> tool_reply(
                #[trigger] s[a + 1 + k],
                s[a].spec_calls()[k],
            ),
        a + 1 + s[a].spec_calls().len() < s.len() ==> !(s[a + 1 + s[a].spec_calls().len()].role
            is Tool),
    decreases a - lo,
{
    if lo == a {
        let c = s[a].spec_calls();
        let after = a + 1 + c.len();
        assert(conv_from(s, after));
        if after < s.len() {
            assert(!(s[after].role is Tool));
        }
    } else if s[lo].spec_has_calls() {
        let c = s[lo].spec_calls();
        assert forall|j: int| lo < j < lo + 1 + c.len() implies (#[trigger] s[j]).role
            is Tool by {
            assert(tool_reply(s[lo + 1 + (j - lo - 1)], c[j - lo - 1]));
        }
        assert(a >= lo + 1 + c.len());
        lemma_assistant_block_complete_from(s, lo + 1 + c.len(), a);
    } else {
        lemma_assistant_block_complete_from(s, lo + 1, a);
    }
}

/// Appending a message that is neither a tool message nor an assistant
/// message with calls keeps the conversation complete.
proof fn lemma_conv_push_plain(s: Seq<Message>, m: Message, i: int)
    requires
        0 <= i <= s.len(),
        conv_from(s, i),
        !(m.role is Tool),
        !m.spec_has_calls(),
    ensures
        conv_from(s.push(m), i),
    decreases s.len() - i,
{
    let s2 = s.push(m);
    if i == s.len() {
        assert(s2[i] == m);
        assert(conv_from(s2, i + 1));
    } else {
        assert(s2[i] == s[i]);
        if s[i].spec_has_calls() {
            let c = s[i].spec_calls();
            assert forall|k: int| 0 <= k < c.len() implies tool_reply(
                #[trigger] s2[i + 1 + k],
                c[k],
            ) by {
                assert(s2[i + 1 + k] == s[i + 1 + k]);
            }
            lemma_conv_push_plain(s, m, i + 1 + c.len());
        } else {
            lemma_conv_push_plain(s, m, i + 1);
        }
    }
}

/// A complete block at the very end, after complete turns, closes the
/// conversation again.
proof fn lemma_conv_close_block(s: Seq<Message>, a: int, i: int)
    requires
        0 <= i <= a < s.len(),
        conv_from(s.take(a), i),
        s[a].role is Assistant,
        s[a].tool_calls matches Some(c) && c@.len() > 0 && a + 1 + c@.len() == s.len() && (forall|
            k: int,
        |
            0 <= k < c@.len() ==> tool_reply(#[trigger] s[a + 1 + k], c@[k])),
    ensures
        conv_from(s, i),
    decreases a - i,
{
    let t = s.take(a);
    if i == a {
        assert(conv_from(s, a + 1 + s[a].tool_calls->0@.len()));
    } else {
        assert(t[i] == s[i]);
        if t[i].spec_has_calls() {
            let c2 = t[i].spec_calls();
            assert(i + 1 + c2.len() <= t.len());
            assert forall|k: int| 0 <= k < c2.len() implies tool_reply(
                #[trigger] s[i + 1 + k],
                c2[k],
            ) by {
                assert(s[i + 1 + k] == t[i + 1 + k]);
            }
            lemma_conv_close_block(s, a, i + 1 + c2.len());
        } else {
            lemma_conv_close_block(s, a, i + 1);
        }
    }
}

} // verus!
