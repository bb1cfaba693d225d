//! Memory: the conversation history, its context window, and the JSONL
//! record format in which it is persisted.

use vstd::prelude::*;
use crate::text::{
    blank_range, chars_of, is_blank, lemma_first_newline, lines_of, prefixed, string_views, strip_cr,
    text_lines,
};

verus! {

/// Why the memory could not be read, written or parsed.
#[derive(Debug)]
pub enum MemoryError {
    IoError(std::io::Error),
    ParseError(serde_json::Error),
    InvalidFormat,
}

impl MemoryError {
    /// The text that describes this error to the user; the underlying failure
    /// is described by its `Display` text.
    pub fn message(&self) -> (m: String)
        ensures
            match *self {
                MemoryError::IoError(e) => exists|t: String|
                    vstd::string::to_string_from_display_ensures::<std::io::Error>(&e, t) && m@ == "文件操作失败: "@ + t@,
                MemoryError::ParseError(e) => exists|t: String|
                    vstd::string::to_string_from_display_ensures::<serde_json::Error>(&e, t) && m@ == "JSON解析失败: "@ + t@,
                MemoryError::InvalidFormat => m@ == "记忆文件格式错误"@,
            },
    {
        match self {
            MemoryError::IoError(e) => {
                let t = e.to_string();
                prefixed("文件操作失败: ", t.as_str())
            },
            MemoryError::ParseError(e) => {
                let t = e.to_string();
                prefixed("JSON解析失败: ", t.as_str())
            },
            MemoryError::InvalidFormat => "记忆文件格式错误".to_string(),
        }
    }
}

/// A parsed JSON document.
#[verifier::external_type_specification]
#[verifier::external_body]
pub struct ExJsonValue(serde_json::Value);

/// A JSON parse or print failure.
#[verifier::external_type_specification]
#[verifier::external_body]
pub struct ExJsonError(serde_json::Error);

/// Whether `text` is one well-formed JSON document, as `serde_json` judges it.
pub uninterp spec fn json_parses(text: Seq<char>) -> bool;

/// The JSON value that `serde_json` reads from `text`, when it parses.
pub uninterp spec fn json_value_of(text: Seq<char>) -> serde_json::Value;

/// The error that `serde_json` reports for `text`, when it does not parse
/// (what went wrong, and at which line and column).
pub uninterp spec fn json_error_of(text: Seq<char>) -> serde_json::Error;

/// Parses `text` as a JSON document (`serde_json::from_str::<Value>`); it
/// succeeds exactly on the texts that `serde_json` accepts, with the value
/// that `serde_json` reads from that text, and otherwise fails with the
/// error that `serde_json` reports for that text.
#[verifier::external_body]
fn parse_json(text: &str) -> (r: Result<serde_json::Value, serde_json::Error>)
    ensures
        r is Ok <==> json_parses(text@),
        r matches Ok(v) ==> v == json_value_of(text@),
        r matches Err(e) ==> e == json_error_of(text@),
{
    serde_json::from_str(text)
}

/// A lower-case hexadecimal digit.
pub open spec fn is_hex_digit(c: char) -> bool {
    ('0' <= c && c <= '9') || ('a' <= c && c <= 'f')
}

/// The hyphenated text form of a version-4 UUID: 36 characters, hyphens at
/// positions 8, 13, 18 and 23, lower-case hexadecimal digits elsewhere, and
/// the version digit `4` at position 14.
pub open spec fn is_v4_uuid_text(s: Seq<char>) -> bool {
    &&& s.len() == 36
    &&& forall|i: int| 0 <= i < 36 ==> (if i == 8 || i == 13 || i == 18 || i == 23 {
        s[i] == '-'
    } else {
        is_hex_digit(#[trigger] s[i])
    })
    &&& s[14] == '4'
}

/// A fresh identifier from `uuid::Uuid::new_v4`, in its hyphenated
/// lower-case text form (`Display` of `Uuid`). Which identifier comes out is
/// chance; only its form is stated.
#[verifier::external_body]
fn fresh_call_id() -> (id: String)
    ensures
        is_v4_uuid_text(id@),
{
    uuid::Uuid::new_v4().to_string()
}

/// The function part of a tool call: which tool, with which JSON arguments.
#[derive(Debug)]
pub struct FunctionCall {
    pub name: String,
    pub arguments: String,
}

/// A tool call requested by the model (OpenAI format).
#[derive(Debug)]
pub struct ToolCall {
    pub id: String,
    pub call_type: String,
    pub function: FunctionCall,
}

/// One message of the conversation.
#[derive(Debug)]
pub struct Message {
    pub role: String,
    pub content: String,
    pub tool_calls: Option<Vec<ToolCall>>,
    pub tool_call_id: Option<String>,
}

/// A tool call as plain text values.
pub struct ToolCallView {
    pub id: Seq<char>,
    pub call_type: Seq<char>,
    pub name: Seq<char>,
    pub arguments: Seq<char>,
}

/// A message as plain text values.
pub struct MessageView {
    pub role: Seq<char>,
    pub content: Seq<char>,
    pub tool_calls: Option<Seq<ToolCallView>>,
    pub tool_call_id: Option<Seq<char>>,
}

impl View for ToolCall {
    type V = ToolCallView;

    open spec fn view(&self) -> ToolCallView {
        ToolCallView {
            id: self.id@,
            call_type: self.call_type@,
            name: self.function.name@,
            arguments: self.function.arguments@,
        }
    }
}

/// The views of a sequence of tool calls.
pub open spec fn call_views(cs: Seq<ToolCall>) -> Seq<ToolCallView> {
    cs.map_values(|c: ToolCall| c@)
}

impl View for Message {
    type V = MessageView;

    open spec fn view(&self) -> MessageView {
        MessageView {
            role: self.role@,
            content: self.content@,
            tool_calls: match self.tool_calls {
                Some(v) => Some(call_views(v@)),
                None => None,
            },
            tool_call_id: match self.tool_call_id {
                Some(s) => Some(s@),
                None => None,
            },
        }
    }
}

/// The views of a sequence of messages.
pub open spec fn message_views(ms: Seq<Message>) -> Seq<MessageView> {
    ms.map_values(|m: Message| m@)
}

impl Clone for FunctionCall {
    fn clone(&self) -> (r: Self)
        ensures
            r.name@ == self.name@,
            r.arguments@ == self.arguments@,
    {
        FunctionCall { name: self.name.clone(), arguments: self.arguments.clone() }
    }
}

impl Clone for ToolCall {
    fn clone(&self) -> (r: Self)
        ensures
            r@ == self@,
    {
        ToolCall { id: self.id.clone(), call_type: self.call_type.clone(), function: self.function.clone() }
    }
}

/// A copy of a list of tool calls.
fn copy_calls(v: &Vec<ToolCall>) -> (r: Vec<ToolCall>)
    ensures
        call_views(r@) == call_views(v@),
{
    let mut r: Vec<ToolCall> = Vec::new();
    let mut i: usize = 0;
    while i < v.len()
        invariant
            i <= v@.len(),
            r@.len() == i,
            forall|k: int| 0 <= k < i ==> (#[trigger] r@[k])@ == v@[k]@,
        decreases v@.len() - i,
    {
        let c = v[i].clone();
        r.push(c);
        i = i + 1;
    }
    assert(call_views(r@) =~= call_views(v@));
    r
}

impl Clone for Message {
    fn clone(&self) -> (r: Self)
        ensures
            r@ == self@,
    {
        let tool_calls = match &self.tool_calls {
            Some(v) => Some(copy_calls(v)),
            None => None,
        };
        let tool_call_id = match &self.tool_call_id {
            Some(s) => Some(s.clone()),
            None => None,
        };
        Message { role: self.role.clone(), content: self.content.clone(), tool_calls, tool_call_id }
    }
}

/// The view of a message with the given role and content and no tool data.
pub open spec fn plain_message(role: Seq<char>, content: Seq<char>) -> MessageView {
    MessageView { role, content, tool_calls: None, tool_call_id: None }
}

impl Message {
    /// A message from the user.
    pub fn user(content: &str) -> (m: Message)
        ensures
            m@ == plain_message("user"@, content@),
    {
        Message { role: "user".to_string(), content: content.to_string(), tool_calls: None, tool_call_id: None }
    }

    /// A reply of the assistant.
    pub fn assistant(content: &str) -> (m: Message)
        ensures
            m@ == plain_message("assistant"@, content@),
    {
        Message {
            role: "assistant".to_string(),
            content: content.to_string(),
            tool_calls: None,
            tool_call_id: None,
        }
    }

    /// A reply of the assistant that asks for tool calls, with empty content.
    pub fn assistant_with_tools(tool_calls: Vec<ToolCall>) -> (m: Message)
        ensures
            m@ == (MessageView {
                role: "assistant"@,
                content: Seq::empty(),
                tool_calls: Some(call_views(tool_calls@)),
                tool_call_id: None,
            }),
    {
        Message { role: "assistant".to_string(), content: String::new(), tool_calls: Some(tool_calls), tool_call_id: None }
    }

    /// A system prompt.
    pub fn system(content: &str) -> (m: Message)
        ensures
            m@ == plain_message("system"@, content@),
    {
        Message { role: "system".to_string(), content: content.to_string(), tool_calls: None, tool_call_id: None }
    }

    /// The result of the tool call `tool_call_id`.
    pub fn tool(tool_call_id: &str, content: &str) -> (m: Message)
        ensures
            m@ == (MessageView {
                role: "tool"@,
                content: content@,
                tool_calls: None,
                tool_call_id: Some(tool_call_id@),
            }),
    {
        Message {
            role: "tool".to_string(),
            content: content.to_string(),
            tool_calls: None,
            tool_call_id: Some(tool_call_id.to_string()),
        }
    }
}

impl ToolCall {
    /// A call of function `name` with the given arguments, under a fresh
    /// identifier.
    pub fn new(name: &str, arguments: serde_json::Value) -> (c: ToolCall)
        ensures
            is_v4_uuid_text(c.id@),
            c.call_type@ == "function"@,
            c.function.name@ == name@,
            vstd::string::to_string_from_display_ensures::<serde_json::Value>(&arguments, c.function.arguments),
    {
        ToolCall {
            id: fresh_call_id(),
            call_type: "function".to_string(),
            function: FunctionCall { name: name.to_string(), arguments: arguments.to_string() },
        }
    }

    /// The name of the function called.
    pub fn name(&self) -> (n: &str)
        ensures
            n@ == self.function.name@,
    {
        self.function.name.as_str()
    }

    /// The arguments parsed as JSON; fails exactly when they are not JSON.
    pub fn arguments(&self) -> (r: Result<serde_json::Value, serde_json::Error>)
        ensures
            r is Ok <==> json_parses(self.function.arguments@),
            r matches Ok(v) ==> v == json_value_of(self.function.arguments@),
            r matches Err(e) ==> e == json_error_of(self.function.arguments@),
    {
        parse_json(self.function.arguments.as_str())
    }
}


/// Whether a message is a system prompt.
pub open spec fn is_system(m: MessageView) -> bool {
    m.role == "system"@
}

/// The system prompts of `ms`, in order.
pub open spec fn system_part(ms: Seq<MessageView>) -> Seq<MessageView>
    decreases ms.len(),
{
    if ms.len() == 0 {
        Seq::empty()
    } else if is_system(ms.last()) {
        system_part(ms.drop_last()).push(ms.last())
    } else {
        system_part(ms.drop_last())
    }
}

/// The messages of `ms` that are not system prompts, in order.
pub open spec fn dialogue_part(ms: Seq<MessageView>) -> Seq<MessageView>
    decreases ms.len(),
{
    if ms.len() == 0 {
        Seq::empty()
    } else if is_system(ms.last()) {
        dialogue_part(ms.drop_last())
    } else {
        dialogue_part(ms.drop_last()).push(ms.last())
    }
}

/// The last `n` elements of `s` (all of `s` when it is shorter).
pub open spec fn last_n<A>(s: Seq<A>, n: nat) -> Seq<A> {
    if s.len() <= n {
        s
    } else {
        s.subrange(s.len() - n, s.len() as int)
    }
}

/// The context sent to the model: the whole history when it holds at most
/// `max` messages; otherwise every system prompt, followed by the last `max`
/// other messages, each group in the order of the history.
pub open spec fn context_window(ms: Seq<MessageView>, max: nat) -> Seq<MessageView> {
    if ms.len() <= max {
        ms
    } else {
        system_part(ms) + last_n(dialogue_part(ms), max)
    }
}

/// The system prompts and the other messages split a history: the parts
/// together are as long as the history, the first holds system prompts only,
/// the second none.
pub proof fn lemma_parts_partition(ms: Seq<MessageView>)
    ensures
        system_part(ms).len() + dialogue_part(ms).len() == ms.len(),
        forall|i: int| 0 <= i < system_part(ms).len() ==> is_system(#[trigger] system_part(ms)[i]),
        forall|i: int| 0 <= i < dialogue_part(ms).len() ==> !is_system(#[trigger] dialogue_part(ms)[i]),
    decreases ms.len(),
{
    if ms.len() > 0 {
        lemma_parts_partition(ms.drop_last());
    }
}

/// A history longer than `max` is cut to every system prompt followed by at
/// most `max` other messages, the most recent ones; a shorter history is sent
/// whole. The context is never longer than the history.
pub proof fn lemma_context_window_bounds(ms: Seq<MessageView>, max: nat)
    ensures
        context_window(ms, max).len() <= ms.len(),
        ms.len() <= max ==> context_window(ms, max) == ms,
        ms.len() > max ==> context_window(ms, max).len() == system_part(ms).len() + (if dialogue_part(ms).len() <= max {
            dialogue_part(ms).len()
        } else {
            max
        }),
        ms.len() > max ==> forall|i: int|
            system_part(ms).len() <= i < context_window(ms, max).len() ==> !is_system(#[trigger] context_window(ms, max)[i]),
        ms.len() > max ==> forall|i: int|
            0 <= i < system_part(ms).len() ==> is_system(#[trigger] context_window(ms, max)[i]),
{
    lemma_parts_partition(ms);
    if ms.len() > max {
        let sp = system_part(ms);
        let dp = dialogue_part(ms);
        let tail = last_n(dp, max);
        assert forall|i: int| 0 <= i < tail.len() implies !is_system(#[trigger] tail[i]) by {
            if dp.len() > max {
                assert(tail[i] == dp[dp.len() - max + i]);
            }
        }
        assert forall|i: int| sp.len() <= i < context_window(ms, max).len() implies !is_system(
            #[trigger] context_window(ms, max)[i],
        ) by {
            assert(context_window(ms, max)[i] == tail[i - sp.len()]);
        }
        assert forall|i: int| 0 <= i < sp.len() implies is_system(#[trigger] context_window(ms, max)[i]) by {
            assert(context_window(ms, max)[i] == sp[i]);
        }
    }
}

/// The system prompts of a history are exactly its messages of role
/// `system`, and its other messages exactly those of another role, each in
/// the order of the history.
pub proof fn lemma_parts_are_filters(ms: Seq<MessageView>)
    ensures
        system_part(ms) == ms.filter(|m: MessageView| m.role == "system"@),
        dialogue_part(ms) == ms.filter(|m: MessageView| m.role != "system"@),
    decreases ms.len(),
{
    reveal(Seq::filter);
    if ms.len() > 0 {
        lemma_parts_are_filters(ms.drop_last());
    }
}

/// A history longer than `max` is sent as all its messages of role `system`,
/// in order, followed by its most recent `k` messages of another role, in
/// order, where `k` is `max` or, if fewer, how many such messages there are.
/// In particular the newest message, when it is not a system prompt, is the
/// last one sent.
pub proof fn lemma_context_keeps_most_recent(ms: Seq<MessageView>, max: nat)
    requires
        ms.len() > max,
    ensures
        ({
            let sys = ms.filter(|m: MessageView| m.role == "system"@);
            let other = ms.filter(|m: MessageView| m.role != "system"@);
            let k = if other.len() <= max { other.len() } else { max };
            let c = context_window(ms, max);
            &&& c.len() == sys.len() + k
            &&& forall|i: int| 0 <= i < sys.len() ==> c[i] == sys[i]
            &&& forall|j: int| sys.len() <= j < c.len() ==> #[trigger] c[j] == other[other.len() - k + (j - sys.len())]
        }),
        max > 0 && ms.last().role != "system"@ ==> context_window(ms, max).last() == ms.last(),
{
    lemma_parts_are_filters(ms);
    let sys = ms.filter(|m: MessageView| m.role == "system"@);
    let other = ms.filter(|m: MessageView| m.role != "system"@);
    let k = if other.len() <= max { other.len() } else { max };
    let c = context_window(ms, max);
    let tail = last_n(other, max);
    assert(c == sys + tail);
    assert(tail.len() == k);
    assert forall|j: int| sys.len() <= j < c.len() implies #[trigger] c[j] == other[other.len() - k + (j - sys.len())] by {
        assert(c[j] == tail[j - sys.len()]);
    }
    assert forall|i: int| 0 <= i < sys.len() implies c[i] == sys[i] by {}
    if max > 0 && ms.last().role != "system"@ {
        reveal(Seq::filter);
        assert(other == ms.drop_last().filter(|m: MessageView| m.role != "system"@).push(ms.last()));
        assert(other.last() == ms.last());
        assert(k > 0);
        assert(c.last() == c[sys.len() + k - 1]);
    }
}

/// The conversation history, persisted as one JSON record per line at `path`.
#[derive(Debug)]
pub struct Memory {
    path: std::path::PathBuf,
    messages: Vec<Message>,
}

impl View for Memory {
    type V = Seq<MessageView>;

    closed spec fn view(&self) -> Seq<MessageView> {
        message_views(self.messages@)
    }
}

/// The index of the first failure in `ps`, or its length when there is none.
pub open spec fn first_failure<T, E>(ps: Seq<Result<T, E>>) -> nat
    decreases ps.len(),
{
    if ps.len() == 0 {
        0
    } else if ps[0] is Err {
        0
    } else {
        1 + first_failure(ps.drop_first())
    }
}

proof fn lemma_first_failure<T, E>(ps: Seq<Result<T, E>>, k: int)
    requires
        0 <= k <= ps.len(),
        forall|j: int| 0 <= j < k ==> (#[trigger] ps[j]) is Ok,
        k == ps.len() || ps[k] is Err,
    ensures
        first_failure(ps) == k,
    decreases k,
{
    if k > 0 {
        let t = ps.drop_first();
        assert forall|j: int| 0 <= j < k - 1 implies (#[trigger] t[j]) is Ok by {
            assert(t[j] == ps[j + 1]);
        }
        if k < ps.len() {
            assert(t[k - 1] == ps[k]);
        }
        lemma_first_failure(t, k - 1);
    }
}

/// The views of the messages that parsed, assuming each of `ps` did.
pub open spec fn parsed_views(ps: Seq<Result<Message, serde_json::Error>>) -> Seq<MessageView> {
    ps.map_values(|r: Result<Message, serde_json::Error>| r->Ok_0@)
}

impl Memory {
    /// An empty history to be persisted at `path`.
    pub fn new(path: std::path::PathBuf) -> (m: Memory)
        ensures
            m@ == Seq::<MessageView>::empty(),
            m.path() == path,
    {
        Memory { path, messages: Vec::new() }
    }

    /// Where the history is persisted.
    pub closed spec fn path(&self) -> std::path::PathBuf {
        self.path
    }

    /// Where the history is persisted.
    pub fn file_path(&self) -> (p: &std::path::PathBuf)
        ensures
            *p == self.path(),
    {
        &self.path
    }

    /// All messages, oldest first.
    pub fn get_messages(&self) -> (ms: &[Message])
        ensures
            message_views(ms@) == self@,
    {
        self.messages.as_slice()
    }

    /// Appends a message to the in-memory history.
    pub fn add_message(&mut self, msg: Message)
        ensures
            final(self)@ == old(self)@.push(msg@),
            final(self).path() == old(self).path(),
    {
        self.messages.push(msg);
        assert(message_views(self.messages@) =~= message_views(old(self).messages@).push(msg@));
    }

    /// Makes `persona` the system prompt of a history that has none: it is
    /// put first; a history that already holds a system prompt is kept.
    pub fn set_persona(&mut self, persona: &str)
        ensures
            final(self).path() == old(self).path(),
            (exists|i: int| 0 <= i < old(self)@.len() && is_system(#[trigger] old(self)@[i])) ==> final(self)@ == old(self)@,
            !(exists|i: int| 0 <= i < old(self)@.len() && is_system(#[trigger] old(self)@[i])) ==> final(self)@
                == seq![plain_message("system"@, persona@)] + old(self)@,
    {
        let system = "system".to_string();
        let n = self.messages.len();
        let mut i: usize = 0;
        while i < n
            invariant
                n == self.messages@.len(),
                i <= n,
                system@ == "system"@,
                forall|k: int| 0 <= k < i ==> !is_system(#[trigger] message_views(self.messages@)[k]),
            decreases n - i,
        {
            if self.messages[i].role == system {
                assert(is_system(message_views(self.messages@)[i as int]));
                return;
            }
            i = i + 1;
        }
        let msg = Message::system(persona);
        let ghost old_views = message_views(self.messages@);
        self.messages.insert(0, msg);
        assert(message_views(self.messages@) =~= seq![plain_message("system"@, persona@)] + old_views);
    }

    /// The number of messages.
    pub fn len(&self) -> (n: usize)
        ensures
            n == self@.len(),
    {
        self.messages.len()
    }

    /// Whether there is no message.
    pub fn is_empty(&self) -> (b: bool)
        ensures
            b == (self@.len() == 0),
    {
        self.messages.len() == 0
    }

    /// The messages to send to the model, at most `max_messages` of them
    /// besides the system prompts (see `context_window`).
    pub fn get_context(&self, max_messages: usize) -> (r: Vec<Message>)
        ensures
            message_views(r@) == context_window(self@, max_messages as nat),
    {
        let n = self.messages.len();
        let ghost ms = self@;
        if n <= max_messages {
            let mut all: Vec<Message> = Vec::new();
            let mut i: usize = 0;
            while i < n
                invariant
                    n == self.messages@.len(),
                    ms == self@,
                    i <= n,
                    all@.len() == i,
                    forall|k: int| 0 <= k < i ==> (#[trigger] all@[k])@ == ms[k],
                decreases n - i,
            {
                all.push(self.messages[i].clone());
                i = i + 1;
            }
            assert(message_views(all@) =~= ms);
            return all;
        }
        let system = "system".to_string();
        let mut sys: Vec<Message> = Vec::new();
        let mut oth: Vec<Message> = Vec::new();
        let mut i: usize = 0;
        while i < n
            invariant
                n == self.messages@.len(),
                ms == self@,
                system@ == "system"@,
                i <= n,
                message_views(sys@) == system_part(ms.take(i as int)),
                message_views(oth@) == dialogue_part(ms.take(i as int)),
            decreases n - i,
        {
            let m = self.messages[i].clone();
            let ghost pre = ms.take(i as int);
            assert(ms.take(i + 1).drop_last() =~= pre);
            assert(ms.take(i + 1).last() == m@);
            if self.messages[i].role == system {
                let ghost old_sys = sys@;
                sys.push(m);
                assert(message_views(sys@) =~= message_views(old_sys).push(m@));
            } else {
                let ghost old_oth = oth@;
                oth.push(m);
                assert(message_views(oth@) =~= message_views(old_oth).push(m@));
            }
            i = i + 1;
        }
        assert(ms.take(n as int) =~= ms);
        let ghost sp = message_views(sys@);
        let ghost dp = message_views(oth@);
        let on = oth.len();
        let start = if on > max_messages { on - max_messages } else { 0 };
        let mut j = start;
        while j < on
            invariant
                on == oth@.len(),
                dp == message_views(oth@),
                start <= j <= on,
                message_views(sys@) == sp + dp.subrange(start as int, j as int),
            decreases on - j,
        {
            let ghost old_sys = sys@;
            let m = oth[j].clone();
            sys.push(m);
            assert(message_views(sys@) =~= message_views(old_sys).push(m@));
            assert(dp.subrange(start as int, j + 1) =~= dp.subrange(start as int, j as int).push(dp[j as int]));
            j = j + 1;
        }
        assert(last_n(dp, max_messages as nat) =~= dp.subrange(start as int, on as int));
        sys
    }

    /// Replaces the history with what a load parsed, record by record: the
    /// messages before the first record that failed to parse are kept, and
    /// that failure is returned.
    pub fn load_parsed(&mut self, parsed: Vec<Result<Message, serde_json::Error>>) -> (r: Result<(), MemoryError>)
        ensures
            final(self).path() == old(self).path(),
            final(self)@ == parsed_views(parsed@.take(first_failure(parsed@) as int)),
            first_failure(parsed@) == parsed@.len() ==> r is Ok,
            first_failure(parsed@) < parsed@.len() ==> (r matches Err(MemoryError::ParseError(e))
                && parsed@[first_failure(parsed@) as int] == Err::<Message, serde_json::Error>(e)),
    {
        let ghost ps = parsed@;
        self.messages.clear();
        for item in it: parsed
            invariant
                ps == it.seq(),
                self.path == old(self).path,
                forall|j: int| 0 <= j < it.index() ==> (#[trigger] ps[j]) is Ok,
                self@ == parsed_views(ps.take(it.index())),
        {
            let ghost k = it.index();
            match item {
                Ok(m) => {
                    let ghost old_ms = self.messages@;
                    self.messages.push(m);
                    assert(ps.take(k + 1) =~= ps.take(k).push(ps[k]));
                    assert(message_views(self.messages@) =~= message_views(old_ms).push(m@));
                    assert(parsed_views(ps.take(k + 1)) =~= parsed_views(ps.take(k)).push(m@));
                },
                Err(e) => {
                    proof {
                        lemma_first_failure(ps, k);
                    }
                    return Err(MemoryError::ParseError(e));
                },
            }
        }
        proof {
            lemma_first_failure(ps, ps.len() as int);
            assert(ps.take(ps.len() as int) =~= ps);
        }
        Ok(())
    }

    /// Replaces the history with an imported list of messages; a failed
    /// import leaves the history as it was.
    pub fn import_parsed(&mut self, parsed: Result<Vec<Message>, serde_json::Error>) -> (r: Result<(), MemoryError>)
        ensures
            final(self).path() == old(self).path(),
            match parsed {
                Ok(ms) => r is Ok && final(self)@ == message_views(ms@),
                Err(e) => r == Err::<(), MemoryError>(MemoryError::ParseError(e)) && final(self)@ == old(self)@,
            },
    {
        match parsed {
            Ok(ms) => {
                self.messages = ms;
                Ok(())
            },
            Err(e) => Err(MemoryError::ParseError(e)),
        }
    }
}


/// The lines of `ls` that are not blank, in order.
pub open spec fn non_blank_lines(ls: Seq<Seq<char>>) -> Seq<Seq<char>>
    decreases ls.len(),
{
    if ls.len() == 0 {
        Seq::empty()
    } else if is_blank(ls[0]) {
        non_blank_lines(ls.drop_first())
    } else {
        seq![ls[0]] + non_blank_lines(ls.drop_first())
    }
}

/// The records of a JSONL text: its lines, as `str::lines` splits them
/// (at `\n` or `\r\n`, the last line ending optional), without the lines that
/// are blank.
pub open spec fn jsonl_records(s: Seq<char>) -> Seq<Seq<char>> {
    non_blank_lines(text_lines(s))
}

/// The text of a JSONL file holding `records`, each followed by a line feed.
pub open spec fn jsonl_file(records: Seq<Seq<char>>) -> Seq<char>
    decreases records.len(),
{
    if records.len() == 0 {
        Seq::empty()
    } else {
        records[0] + seq!['\n'] + jsonl_file(records.drop_first())
    }
}

/// A text that can stand as one JSONL record: not blank, without line feed,
/// and not ending in a carriage return.
pub open spec fn is_record(r: Seq<char>) -> bool {
    &&& !is_blank(r)
    &&& forall|i: int| 0 <= i < r.len() ==> r[i] != '\n'
    &&& r.last() != '\r'
}

/// Appending a record to a JSONL file adds the record, then a line feed, at
/// its end.
pub proof fn lemma_jsonl_file_push(records: Seq<Seq<char>>, r: Seq<char>)
    ensures
        jsonl_file(records.push(r)) == jsonl_file(records) + r + seq!['\n'],
    decreases records.len(),
{
    if records.len() == 0 {
        assert(records.push(r).drop_first() =~= Seq::<Seq<char>>::empty());
        assert(records.push(r)[0] == r);
        assert(jsonl_file(Seq::<Seq<char>>::empty()) == Seq::<char>::empty());
        assert(jsonl_file(records) == Seq::<char>::empty());
        assert(jsonl_file(records.push(r)) =~= r + seq!['\n']);
    } else {
        assert(records.push(r).drop_first() =~= records.drop_first().push(r));
        lemma_jsonl_file_push(records.drop_first(), r);
        assert(jsonl_file(records.push(r)) =~= jsonl_file(records) + r + seq!['\n']);
    }
}

/// Reading back a JSONL file gives the records that were written to it, in
/// order.
pub proof fn lemma_jsonl_round_trip(records: Seq<Seq<char>>)
    requires
        forall|i: int| 0 <= i < records.len() ==> is_record(#[trigger] records[i]),
    ensures
        jsonl_records(jsonl_file(records)) == records,
    decreases records.len(),
{
    if records.len() > 0 {
        let r = records[0];
        let rest = records.drop_first();
        assert forall|i: int| 0 <= i < rest.len() implies is_record(#[trigger] rest[i]) by {
            assert(rest[i] == records[i + 1]);
        }
        lemma_jsonl_round_trip(rest);
        assert(is_record(r));
        let s = jsonl_file(records);
        assert(s =~= r + seq!['\n'] + jsonl_file(rest));
        assert forall|k: int| 0 <= k < r.len() implies s[k] != '\n' by {
            assert(s[k] == r[k]);
        }
        assert(s[r.len() as int] == '\n');
        lemma_first_newline(s, r.len() as int);
        assert(s.take(r.len() as int) =~= r);
        assert(s.skip(r.len() + 1 as int) =~= jsonl_file(rest));
        if r.len() > 0 {
            assert(strip_cr(r) == r);
        }
        let ls = text_lines(s);
        assert(ls =~= seq![r] + text_lines(jsonl_file(rest)));
        assert(ls[0] == r);
        assert(ls.drop_first() =~= text_lines(jsonl_file(rest)));
        assert(!is_blank(r));
        assert(jsonl_records(s) =~= seq![r] + rest);
        assert(seq![r] + rest =~= records);
    }
}

/// The records of a JSONL text (see `jsonl_records`), as strings.
pub fn jsonl_lines(content: &str) -> (r: Vec<String>)
    ensures
        string_views(r@) == jsonl_records(content@),
{
    let lines = lines_of(content);
    let ghost ls = string_views(lines@);
    let mut r: Vec<String> = Vec::new();
    let mut i: usize = 0;
    assert(ls.skip(0) =~= ls);
    assert(string_views(r@) + non_blank_lines(ls) =~= non_blank_lines(ls));
    while i < lines.len()
        invariant
            i <= lines@.len(),
            ls == string_views(lines@),
            ls == text_lines(content@),
            non_blank_lines(ls) == string_views(r@) + non_blank_lines(ls.skip(i as int)),
        decreases lines@.len() - i,
    {
        let ghost rest = ls.skip(i as int);
        let ghost old_r = r@;
        assert(rest[0] == lines@[i as int]@);
        assert(rest.drop_first() =~= ls.skip(i + 1));
        let cs = chars_of(lines[i].as_str());
        assert(cs@.subrange(0, cs@.len() as int) =~= cs@);
        if !blank_range(&cs, 0, cs.len()) {
            r.push(lines[i].clone());
            assert(string_views(r@) =~= string_views(old_r) + seq![lines@[i as int]@]);
            assert(string_views(old_r) + non_blank_lines(rest) =~= string_views(r@) + non_blank_lines(rest.drop_first()));
        }
        i = i + 1;
    }
    assert(ls.skip(lines@.len() as int) =~= Seq::<Seq<char>>::empty());
    assert(string_views(r@) + Seq::<Seq<char>>::empty() =~= string_views(r@));
    r
}

/// The text of a JSONL file holding `records`, each followed by a line feed.
pub fn jsonl_text(records: &Vec<String>) -> (t: String)
    ensures
        t@ == jsonl_file(string_views(records@)),
{
    let mut t = String::new();
    let mut i: usize = 0;
    assert(string_views(records@).skip(0) =~= string_views(records@));
    assert(t@ + jsonl_file(string_views(records@)) =~= jsonl_file(string_views(records@)));
    while i < records.len()
        invariant
            i <= records@.len(),
            jsonl_file(string_views(records@)) == t@ + jsonl_file(string_views(records@).skip(i as int)),
        decreases records@.len() - i,
    {
        let ghost rest = string_views(records@).skip(i as int);
        let ghost old_t = t@;
        assert(rest[0] == records@[i as int]@);
        assert(rest.drop_first() =~= string_views(records@).skip(i + 1));
        t.append(records[i].as_str());
        crate::text::push_char(&mut t, '\n');
        assert(jsonl_file(rest) == rest[0] + seq!['\n'] + jsonl_file(rest.drop_first()));
        assert(old_t + jsonl_file(rest) =~= t@ + jsonl_file(rest.drop_first()));
        i = i + 1;
    }
    assert(string_views(records@).skip(records@.len() as int) =~= Seq::<Seq<char>>::empty());
    assert(t@ + Seq::<char>::empty() =~= t@);
    t
}

/// The line that stores one serialized message in the JSONL file.
pub fn record_line(json: &str) -> (line: String)
    ensures
        line@ == json@ + seq!['\n'],
{
    let mut line = json.to_string();
    crate::text::push_char(&mut line, '\n');
    line
}

} // verus!
