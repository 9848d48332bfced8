//! Wire types of the chat completions API and their mathematical models.

use vstd::prelude::*;

verus! {

/// The view of an optional string.
pub open spec fn opt_view(o: Option<String>) -> Option<Seq<char>> {
    match o {
        Some(s) => Some(s@),
        None => None,
    }
}

/// Token accounting of one completion.
#[derive(Clone, Copy, Debug, PartialEq, Eq)]
pub struct OpenAiUsage {
    pub prompt_tokens: u32,
    pub completion_tokens: u32,
    pub total_tokens: u32,
}

/// Name and JSON-encoded arguments of a requested function call.
#[derive(Debug)]
pub struct OpenAiToolCallFunction {
    pub name: String,
    pub arguments: String,
}

/// A tool call made by the assistant.
#[derive(Debug)]
pub struct OpenAiToolCall {
    pub id: String,
    pub tool_type: String,
    pub function: OpenAiToolCallFunction,
}

/// Model of a tool call.
pub struct ToolCallModel {
    pub id: Seq<char>,
    pub tool_type: Seq<char>,
    pub name: Seq<char>,
    pub arguments: Seq<char>,
}

impl View for OpenAiToolCall {
    type V = ToolCallModel;

    open spec fn view(&self) -> ToolCallModel {
        ToolCallModel {
            id: self.id@,
            tool_type: self.tool_type@,
            name: self.function.name@,
            arguments: self.function.arguments@,
        }
    }
}

/// The models of a list of tool calls.
pub open spec fn tool_calls_view(v: Seq<OpenAiToolCall>) -> Seq<ToolCallModel> {
    v.map_values(|t: OpenAiToolCall| t@)
}

/// The model of an optional list of tool calls.
pub open spec fn opt_tool_calls_view(o: Option<Vec<OpenAiToolCall>>) -> Option<Seq<ToolCallModel>> {
    match o {
        Some(v) => Some(tool_calls_view(v@)),
        None => None,
    }
}

/// One chat message on the wire.
#[derive(Debug)]
pub struct OpenAiMessage {
    pub role: String,
    pub content: Option<String>,
    pub tool_calls: Option<Vec<OpenAiToolCall>>,
    pub tool_call_id: Option<String>,
}

/// Model of a chat message.
pub struct MessageModel {
    pub role: Seq<char>,
    pub content: Option<Seq<char>>,
    pub tool_calls: Option<Seq<ToolCallModel>>,
    pub tool_call_id: Option<Seq<char>>,
}

impl View for OpenAiMessage {
    type V = MessageModel;

    open spec fn view(&self) -> MessageModel {
        MessageModel {
            role: self.role@,
            content: opt_view(self.content),
            tool_calls: opt_tool_calls_view(self.tool_calls),
            tool_call_id: opt_view(self.tool_call_id),
        }
    }
}

/// The models of a list of messages.
pub open spec fn messages_view(v: Seq<OpenAiMessage>) -> Seq<MessageModel> {
    v.map_values(|m: OpenAiMessage| m@)
}

/// One completion choice.
#[derive(Debug)]
pub struct OpenAiChoice {
    pub index: u32,
    pub message: OpenAiMessage,
    pub finish_reason: String,
}

/// Model of a completion choice.
pub struct ChoiceModel {
    pub index: u32,
    pub message: MessageModel,
    pub finish_reason: Seq<char>,
}

impl View for OpenAiChoice {
    type V = ChoiceModel;

    open spec fn view(&self) -> ChoiceModel {
        ChoiceModel { index: self.index, message: self.message@, finish_reason: self.finish_reason@ }
    }
}

/// A chat completion response.
#[derive(Debug)]
pub struct OpenAiResponse {
    pub choices: Vec<OpenAiChoice>,
    pub usage: OpenAiUsage,
}

/// Model of a chat completion response.
pub struct ResponseModel {
    pub choices: Seq<ChoiceModel>,
    pub usage: OpenAiUsage,
}

impl View for OpenAiResponse {
    type V = ResponseModel;

    open spec fn view(&self) -> ResponseModel {
        ResponseModel {
            choices: self.choices@.map_values(|c: OpenAiChoice| c@),
            usage: self.usage,
        }
    }
}

/// Which flavour of the API a server speaks; it decides how the output token limit is sent.
#[derive(Clone, Copy, Debug, PartialEq, Eq)]
pub enum OpenAiProviderType {
    /// Official OpenAI API — uses `max_completion_tokens`.
    OpenAi,
    /// Third-party OpenAI-compatible APIs — uses `max_tokens`.
    OpenAiCompatible,
}

/// A wait before retrying, in whole seconds plus nanoseconds.
#[derive(Clone, Copy, Debug, PartialEq, Eq)]
pub struct RetryAfter {
    pub secs: u64,
    pub nanos: u32,
}

/// A wait of `secs` whole seconds.
pub open spec fn secs(n: u64) -> RetryAfter {
    RetryAfter { secs: n, nanos: 0 }
}

/// A wait of `n` whole seconds.
pub fn retry_after_secs(n: u64) -> (r: RetryAfter)
    ensures
        r == secs(n),
{
    RetryAfter { secs: n, nanos: 0 }
}

/// Failure of a chat completion call.
#[derive(Debug)]
pub enum OpenAiCompatError {
    RateLimitExceeded(RetryAfter),
    TransientError(RetryAfter, String),
    AuthenticationError(String),
    ApiError(u16, String),
}

/// Model of a failure.
pub enum ErrorModel {
    RateLimitExceeded(RetryAfter),
    TransientError(RetryAfter, Seq<char>),
    AuthenticationError(Seq<char>),
    ApiError(u16, Seq<char>),
}

impl View for OpenAiCompatError {
    type V = ErrorModel;

    open spec fn view(&self) -> ErrorModel {
        match self {
            OpenAiCompatError::RateLimitExceeded(r) => ErrorModel::RateLimitExceeded(*r),
            OpenAiCompatError::TransientError(r, m) => ErrorModel::TransientError(*r, m@),
            OpenAiCompatError::AuthenticationError(m) => ErrorModel::AuthenticationError(m@),
            OpenAiCompatError::ApiError(s, m) => ErrorModel::ApiError(*s, m@),
        }
    }
}

/// Clones an optional string.
pub fn clone_opt(o: &Option<String>) -> (r: Option<String>)
    ensures
        opt_view(r) == opt_view(*o),
{
    match o {
        Some(s) => Some(s.clone()),
        None => None,
    }
}

} // verus!
