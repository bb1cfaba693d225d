//! Executor: the decisions of one agent turn (record the input, ask the
//! model, run the tools it calls, feed their results back) and of each tool
//! call, apart from the I/O that carries them out.

use vstd::prelude::*;
use crate::atoms::{Atom, AtomError, AtomRegistry, atom_error_text, holds_name};
use crate::llm::{LlmError, llm_error_text};
use crate::text::prefixed;
use crate::memory::{Memory, Message, MessageView, ToolCall, call_views, json_error_of, json_parses, json_value_of, plain_message};

verus! {

/// The most rounds of tool calls that one turn may run.
pub const MAX_TOOL_ITERATIONS: usize = 10;

/// How many messages besides the system prompts are sent to the model.
pub const CONTEXT_MESSAGES: usize = 20;

/// Why a turn failed.
#[derive(Debug)]
pub enum ExecutorError {
    LlmError(LlmError),
    ToolError(String),
    MemoryError(String),
    Timeout,
    Interrupted,
}

/// The text that describes an executor error to the user.
pub open spec fn executor_error_text(e: ExecutorError) -> Seq<char> {
    match e {
        ExecutorError::LlmError(l) => "LLM调用失败: "@ + llm_error_text(l),
        ExecutorError::ToolError(m) => "工具执行失败: "@ + m@,
        ExecutorError::MemoryError(m) => "记忆错误: "@ + m@,
        ExecutorError::Timeout => "执行超时"@,
        ExecutorError::Interrupted => "用户中断"@,
    }
}

impl ExecutorError {
    /// The text that describes this error to the user.
    pub fn message(&self) -> (m: String)
        ensures
            m@ == executor_error_text(*self),
    {
        match self {
            ExecutorError::LlmError(l) => {
                let t = l.message();
                prefixed("LLM调用失败: ", t.as_str())
            },
            ExecutorError::ToolError(m) => prefixed("工具执行失败: ", m.as_str()),
            ExecutorError::MemoryError(m) => prefixed("记忆错误: ", m.as_str()),
            ExecutorError::Timeout => "执行超时".to_string(),
            ExecutorError::Interrupted => "用户中断".to_string(),
        }
    }
}

/// The JSON `null` (`serde_json::Value::Null`), the value that
/// `serde_json` reads from the text `null`.
#[verifier::external_body]
fn json_null() -> (v: serde_json::Value)
    ensures
        v == json_value_of("null"@),
{
    serde_json::Value::Null
}

/// The output recorded for a tool call that did not succeed: JSON `null`.
pub open spec fn null_output() -> serde_json::Value {
    json_value_of("null"@)
}

/// What came of one tool call.
#[derive(Debug)]
pub struct ExecutionResult {
    pub success: bool,
    pub output: serde_json::Value,
    pub error: Option<String>,
    pub duration_ms: u64,
}

/// What to do with one tool call: run the registered atom on the parsed
/// arguments, or give up with the reason.
pub enum ToolPlan<'a, A: Atom> {
    Run { atom: &'a A, args: serde_json::Value },
    Reject(String),
}

/// How a tool call is to be carried out: an unknown tool is rejected with
/// `Unknown tool: <name>`, arguments that are not JSON with
/// `Invalid arguments: ` and the `Display` text of the parse error;
/// otherwise the atom of that name runs.
pub fn plan_tool_call<'a, A: Atom>(registry: &'a AtomRegistry<A>, call: &ToolCall) -> (r: ToolPlan<'a, A>)
    ensures
        !holds_name(registry@, call.function.name@) ==> (r matches ToolPlan::Reject(m)
            && m@ == "Unknown tool: "@ + call.function.name@),
        holds_name(registry@, call.function.name@) && !json_parses(call.function.arguments@) ==> (
        r matches ToolPlan::Reject(m) && exists|t: String|
            vstd::string::to_string_from_display_ensures::<serde_json::Error>(&json_error_of(call.function.arguments@), t)
            && m@ == "Invalid arguments: "@ + t@),
        holds_name(registry@, call.function.name@) && json_parses(call.function.arguments@) ==> (
        r matches ToolPlan::Run { atom, args } && atom.atom_name() == call.function.name@
            && args == json_value_of(call.function.arguments@)
            && exists|i: int| 0 <= i < registry@.len() && registry@[i] == *atom),
{
    let atom = match registry.get(call.name()) {
        Some(a) => a,
        None => {
            return ToolPlan::Reject(prefixed("Unknown tool: ", call.name()));
        },
    };
    match call.arguments() {
        Ok(args) => ToolPlan::Run { atom, args },
        Err(e) => {
            let t = e.to_string();
            ToolPlan::Reject(prefixed("Invalid arguments: ", t.as_str()))
        },
    }
}

impl ExecutionResult {
    /// A tool call given up before it ran.
    pub fn rejected(message: String) -> (r: ExecutionResult)
        ensures
            !r.success,
            r.output == null_output(),
            r.error == Some(message),
            r.duration_ms == 0,
    {
        ExecutionResult { success: false, output: json_null(), error: Some(message), duration_ms: 0 }
    }

    /// A tool call that ran for `duration_ms` milliseconds with `outcome`.
    pub fn finished(outcome: Result<serde_json::Value, AtomError>, duration_ms: u64) -> (r: ExecutionResult)
        ensures
            r.duration_ms == duration_ms,
            match outcome {
                Ok(v) => r.success && r.output == v && r.error is None,
                Err(e) => !r.success && r.output == null_output() && (r.error matches Some(m) && m@ == atom_error_text(e)),
            },
    {
        match outcome {
            Ok(v) => ExecutionResult { success: true, output: v, error: None, duration_ms },
            Err(e) => ExecutionResult {
                success: false,
                output: json_null(),
                error: Some(e.message()),
                duration_ms,
            },
        }
    }

    /// The result of running a single tool on its own: a failure of the atom
    /// is a `ToolError` described by the atom error's text.
    pub fn conclude(outcome: Result<serde_json::Value, AtomError>, duration_ms: u64) -> (r: Result<ExecutionResult, ExecutorError>)
        ensures
            match outcome {
                Ok(v) => r matches Ok(x) && x.success && x.output == v && x.error is None && x.duration_ms == duration_ms,
                Err(e) => r matches Err(ExecutorError::ToolError(m)) && m@ == atom_error_text(e),
            },
    {
        match outcome {
            Ok(v) => Ok(ExecutionResult { success: true, output: v, error: None, duration_ms }),
            Err(e) => Err(ExecutorError::ToolError(e.message())),
        }
    }
}

/// The next thing a turn does after the model replied.
pub enum LoopStep {
    /// Run these tool calls, then feed their outputs back.
    ExecuteTools(Vec<ToolCall>),
    /// The turn is over; this is the answer.
    Finish(String),
    /// The turn failed.
    Fail(ExecutorError),
}

/// The tool calls a reply asks for, when it asks for at least one.
pub open spec fn requested_calls(reply: MessageView) -> Option<Seq<crate::memory::ToolCallView>> {
    match reply.tool_calls {
        Some(cs) => if cs.len() > 0 { Some(cs) } else { None },
        None => None,
    }
}

/// The state of one turn: how many rounds of tool calls it has run.
pub struct ToolLoop {
    iteration: usize,
}

impl ToolLoop {
    #[verifier::type_invariant]
    closed spec fn within_limit(self) -> bool {
        self.iteration <= MAX_TOOL_ITERATIONS
    }

    /// The rounds of tool calls run so far.
    pub closed spec fn rounds(&self) -> nat {
        self.iteration as nat
    }

    /// Whether the next request to the model offers the tools: only the
    /// first request of a turn does, before any round of tool calls.
    pub fn offers_tools(&self) -> (b: bool)
        ensures
            b == (self.rounds() == 0),
    {
        self.iteration == 0
    }

    /// The rounds of tool calls run so far.
    pub fn iteration(&self) -> (n: usize)
        ensures
            n == self.rounds(),
            n <= MAX_TOOL_ITERATIONS,
    {
        proof {
            use_type_invariant(self);
        }
        self.iteration
    }

    /// Starts a turn on `user_input`: the input is added to the history and
    /// returned, to be persisted; the model is then asked, with the tools.
    pub fn begin(memory: &mut Memory, user_input: &str) -> (r: (ToolLoop, Message))
        ensures
            r.0.rounds() == 0,
            r.1@ == plain_message("user"@, user_input@),
            final(memory)@ == old(memory)@.push(plain_message("user"@, user_input@)),
            final(memory).path() == old(memory).path(),
    {
        let msg = Message::user(user_input);
        memory.add_message(msg.clone());
        (ToolLoop { iteration: 0 }, msg)
    }

    /// Takes the reply of the model: it is added to the history; when it
    /// asks for tools, another round of tool calls starts, unless the turn has
    /// already run `MAX_TOOL_ITERATIONS` of them; otherwise its content is the
    /// answer.
    pub fn on_reply(&mut self, memory: &mut Memory, reply: Message) -> (s: LoopStep)
        ensures
            final(memory)@ == old(memory)@.push(reply@),
            final(memory).path() == old(memory).path(),
            final(self).rounds() <= MAX_TOOL_ITERATIONS,
            match requested_calls(reply@) {
                None => final(self).rounds() == old(self).rounds() && (s matches LoopStep::Finish(t) && t@ == reply@.content),
                Some(cs) => if old(self).rounds() + 1 > MAX_TOOL_ITERATIONS {
                    s matches LoopStep::Fail(ExecutorError::ToolError(m))
                        && m@ == "Exceeded maximum tool call iterations (10)"@
                } else {
                    final(self).rounds() == old(self).rounds() + 1 && (s matches LoopStep::ExecuteTools(v)
                        && call_views(v@) == cs)
                },
            },
    {
        proof {
            use_type_invariant(&*self);
        }
        let content = reply.content.clone();
        let calls = match &reply.tool_calls {
            Some(v) => if v.len() > 0 {
                let mut c: Vec<ToolCall> = Vec::new();
                let mut i: usize = 0;
                while i < v.len()
                    invariant
                        i <= v@.len(),
                        c@.len() == i,
                        forall|k: int| 0 <= k < i ==> (#[trigger] c@[k])@ == v@[k]@,
                    decreases v@.len() - i,
                {
                    c.push(v[i].clone());
                    i = i + 1;
                }
                assert(call_views(c@) =~= call_views(v@));
                Some(c)
            } else {
                None
            },
            None => None,
        };
        memory.add_message(reply);
        match calls {
            None => LoopStep::Finish(content),
            Some(c) => {
                if self.iteration + 1 > MAX_TOOL_ITERATIONS {
                    LoopStep::Fail(
                        ExecutorError::ToolError("Exceeded maximum tool call iterations (10)".to_string()),
                    )
                } else {
                    self.iteration = self.iteration + 1;
                    LoopStep::ExecuteTools(c)
                }
            },
        }
    }

    /// Records the output of the `index`-th tool call of a round: a tool
    /// message answering that call's identifier (empty when there is no such
    /// call) is added to the history and returned, to be persisted.
    pub fn on_tool_output(memory: &mut Memory, calls: &[ToolCall], index: usize, output: &str) -> (m: Message)
        ensures
            m@ == (MessageView {
                role: "tool"@,
                content: output@,
                tool_calls: None,
                tool_call_id: Some(if index < calls@.len() { calls@[index as int].id@ } else { Seq::empty() }),
            }),
            final(memory)@ == old(memory)@.push(m@),
            final(memory).path() == old(memory).path(),
    {
        let id = if index < calls.len() { calls[index].id.clone() } else { String::new() };
        let msg = Message::tool(id.as_str(), output);
        memory.add_message(msg.clone());
        msg
    }
}

} // verus!
