//! LLM: the client settings, the chat request, and how the replies of an
//! OpenAI-compatible endpoint are judged.

use vstd::prelude::*;
use crate::atoms::{ToolDefinition, ToolDefinitionView};
use crate::memory::{Message, message_views};
use crate::text::same_text;

verus! {

/// Why a call of the model failed.
#[derive(Debug)]
pub enum LlmError {
    RequestFailed(String),
    ParseError(String),
    MissingApiKey,
    UnsupportedModel(String),
    RateLimited,
}

/// The text that describes an LLM error to the user.
pub open spec fn llm_error_text(e: LlmError) -> Seq<char> {
    match e {
        LlmError::RequestFailed(m) => "API请求失败: "@ + m@,
        LlmError::ParseError(m) => "API响应解析失败: "@ + m@,
        LlmError::MissingApiKey => "API密钥未配置"@,
        LlmError::UnsupportedModel(m) => "模型不支持: "@ + m@,
        LlmError::RateLimited => "速率限制"@,
    }
}

impl LlmError {
    /// The text that describes this error to the user.
    pub fn message(&self) -> (m: String)
        ensures
            m@ == llm_error_text(*self),
    {
        match self {
            LlmError::RequestFailed(m) => crate::text::prefixed("API请求失败: ", m.as_str()),
            LlmError::ParseError(m) => crate::text::prefixed("API响应解析失败: ", m.as_str()),
            LlmError::MissingApiKey => "API密钥未配置".to_string(),
            LlmError::UnsupportedModel(m) => crate::text::prefixed("模型不支持: ", m.as_str()),
            LlmError::RateLimited => "速率限制".to_string(),
        }
    }
}


/// Settings of the LLM client.
#[derive(Debug, Clone)]
pub struct LlmConfig {
    pub model: String,
    pub api_key: String,
    pub base_url: String,
    pub timeout_secs: u64,
}

/// Whether a key must be sent: a key is set and it is not the placeholder
/// `sk-dummy` that local servers accept.
pub open spec fn needs_api_key(api_key: Seq<char>) -> bool {
    api_key.len() != 0 && api_key != "sk-dummy"@
}

impl LlmConfig {
    /// Whether an API key is to be sent (not for LM Studio and the like).
    pub fn requires_api_key(&self) -> (b: bool)
        ensures
            b == needs_api_key(self.api_key@),
    {
        !self.api_key.as_str().is_empty() && !same_text(self.api_key.as_str(), "sk-dummy")
    }
}

/// An HTTP client of `reqwest`.
#[verifier::external_type_specification]
#[verifier::external_body]
pub struct ExHttpClient(reqwest::Client);

/// A failure of `reqwest`.
#[verifier::external_type_specification]
#[verifier::external_body]
pub struct ExHttpError(reqwest::Error);

/// The request timeout, in whole seconds, that an HTTP client was built with.
pub uninterp spec fn http_timeout_secs(client: reqwest::Client) -> u64;

/// Builds a `reqwest::Client` whose requests time out after `timeout_secs`
/// seconds (`ClientBuilder::timeout`, then `ClientBuilder::build`). Whether the
/// build succeeds depends on the TLS backend and the environment of the
/// machine, so it is not stated; a client that is built carries that timeout.
#[verifier::external_body]
fn build_http_client(timeout_secs: u64) -> (r: Result<reqwest::Client, reqwest::Error>)
    ensures
        r matches Ok(c) ==> http_timeout_secs(c) == timeout_secs,
{
    reqwest::Client::builder().timeout(std::time::Duration::from_secs(timeout_secs)).build()
}

/// A client of an OpenAI-compatible chat endpoint.
pub struct LlmClient {
    client: reqwest::Client,
    config: LlmConfig,
}

/// The body of a chat request.
#[derive(Debug)]
pub struct ChatRequest {
    pub model: String,
    pub messages: Vec<Message>,
    pub tools: Option<Vec<ToolDefinition>>,
    pub stream: bool,
}

/// The views of a sequence of tool definitions.
pub open spec fn tool_views(ts: Seq<ToolDefinition>) -> Seq<ToolDefinitionView> {
    ts.map_values(|t: ToolDefinition| t@)
}

impl LlmClient {
    /// A client for `config`; fails when no HTTP client can be built.
    pub fn new(config: LlmConfig) -> (r: Result<LlmClient, LlmError>)
        ensures
            r matches Ok(c) ==> c.config() == config && http_timeout_secs(c.http_client()) == config.timeout_secs,
            r matches Err(e) ==> (e matches LlmError::RequestFailed(m) && exists|err: reqwest::Error, t: String|
                vstd::string::to_string_from_display_ensures::<reqwest::Error>(&err, t) && m@ == t@),
    {
        match build_http_client(config.timeout_secs) {
            Ok(client) => Ok(LlmClient { client, config }),
            Err(e) => {
                let t = e.to_string();
                Err(LlmError::RequestFailed(t))
            },
        }
    }

    /// The settings of this client.
    pub closed spec fn config(&self) -> LlmConfig {
        self.config
    }

    /// The settings of this client.
    pub fn settings(&self) -> (c: &LlmConfig)
        ensures
            *c == self.config(),
    {
        &self.config
    }

    /// The HTTP client held by this client, which carries its requests.
    pub closed spec fn http_client(&self) -> reqwest::Client {
        self.client
    }

    /// The HTTP client that carries the requests.
    pub fn http(&self) -> (h: &reqwest::Client)
        ensures
            *h == self.http_client(),
    {
        &self.client
    }

    /// The URL of the chat endpoint: the base URL followed by
    /// `/chat/completions`.
    pub fn chat_url(&self) -> (u: String)
        ensures
            u@ == self.config().base_url@ + "/chat/completions"@,
    {
        crate::text::prefixed(self.config.base_url.as_str(), "/chat/completions")
    }

    /// The value of the `Authorization` header: `Bearer ` and the key.
    pub fn authorization(&self) -> (h: String)
        ensures
            h@ == "Bearer "@ + self.config().api_key@,
    {
        crate::text::prefixed("Bearer ", self.config.api_key.as_str())
    }

    /// The non-streaming chat request for `messages`, offering `tools` when
    /// given.
    pub fn chat_request(&self, messages: &[Message], tools: Option<&[ToolDefinition]>) -> (r: ChatRequest)
        ensures
            r.model@ == self.config().model@,
            message_views(r.messages@) == message_views(messages@),
            match tools {
                Some(ts) => r.tools matches Some(v) && tool_views(v@) == tool_views(ts@),
                None => r.tools is None,
            },
            !r.stream,
    {
        let mut ms: Vec<Message> = Vec::new();
        let mut i: usize = 0;
        while i < messages.len()
            invariant
                i <= messages@.len(),
                ms@.len() == i,
                forall|k: int| 0 <= k < i ==> (#[trigger] ms@[k])@ == messages@[k]@,
            decreases messages@.len() - i,
        {
            ms.push(messages[i].clone());
            i = i + 1;
        }
        assert(message_views(ms@) =~= message_views(messages@));
        let tools = match tools {
            Some(ts) => {
                let mut v: Vec<ToolDefinition> = Vec::new();
                let mut j: usize = 0;
                while j < ts.len()
                    invariant
                        j <= ts@.len(),
                        v@.len() == j,
                        forall|k: int| 0 <= k < j ==> (#[trigger] v@[k])@ == ts@[k]@,
                    decreases ts@.len() - j,
                {
                    v.push(ts[j].clone());
                    j = j + 1;
                }
                assert(tool_views(v@) =~= tool_views(ts@));
                Some(v)
            },
            None => None,
        };
        ChatRequest { model: self.config.model.clone(), messages: ms, tools, stream: false }
    }

    /// Judges the status of a reply: 429 is `RateLimited`; a status outside
    /// 200..=299 is `RequestFailed` with the status line, `": "` and the body;
    /// a success status gives `None`.
    pub fn status_error(status: u16, status_line: &str, body: &str) -> (r: Option<LlmError>)
        ensures
            status == 429 ==> r == Some(LlmError::RateLimited),
            status != 429 && 200 <= status <= 299 ==> r is None,
            status != 429 && !(200 <= status <= 299) ==> (r matches Some(LlmError::RequestFailed(m))
                && m@ == status_line@ + ": "@ + body@),
    {
        if status == 429 {
            Some(LlmError::RateLimited)
        } else if 200 <= status && status <= 299 {
            None
        } else {
            let mut m = crate::text::prefixed(status_line, ": ");
            m.append(body);
            Some(LlmError::RequestFailed(m))
        }
    }

    /// The reply of a chat response: the message of its first choice, or a
    /// `ParseError` when there is no choice.
    pub fn first_choice(choices: Vec<Message>) -> (r: Result<Message, LlmError>)
        ensures
            choices@.len() > 0 ==> (r matches Ok(m) && m@ == choices@[0]@),
            choices@.len() == 0 ==> (r matches Err(LlmError::ParseError(e)) && e@ == "No choices in response"@),
    {
        let mut choices = choices;
        if choices.len() == 0 {
            Err(LlmError::ParseError("No choices in response".to_string()))
        } else {
            Ok(choices.remove(0))
        }
    }
}

} // verus!
