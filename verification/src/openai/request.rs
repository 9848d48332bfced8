//! Conversion between the provider-neutral request/response types and the chat
//! completions wire types, and the prompt-size estimate of a request.

use vstd::prelude::*;
use crate::openai::accumulate::{estimate_tokens, estimated_tokens};
use crate::openai::types::{
    clone_opt, messages_view, opt_view, MessageModel, OpenAiMessage, OpenAiProviderType,
    OpenAiResponse, OpenAiToolCall, OpenAiToolCallFunction, ToolCallModel,
};
use crate::sums::{lemma_sum_take_ends, lemma_sum_take_le, lemma_sum_take_step, sum_nat};
use crate::text::{has_infix, lowercase, str_contains, to_lowercase};

verus! {

/// Author of a conversation message.
#[derive(Clone, Copy, Debug, PartialEq, Eq)]
pub enum AiRole {
    System,
    User,
    Assistant,
    Tool,
}

/// A function call requested by the model; `arguments` is the JSON text of its argument
/// value (compact; `null` when the model sent arguments that are not JSON).
#[derive(Debug)]
pub struct ToolCall {
    pub id: String,
    pub function_name: String,
    pub arguments: String,
}

/// One message of a conversation.
#[derive(Debug)]
pub struct AiMessage {
    pub role: AiRole,
    pub content: Option<String>,
    pub tool_calls: Option<Vec<ToolCall>>,
    pub tool_call_id: Option<String>,
}

/// A tool offered to the model; `parameters` is the JSON text of its schema.
#[derive(Debug)]
pub struct AiTool {
    pub name: String,
    pub description: String,
    pub parameters: String,
}

/// Requested shape of the model's answer.
#[derive(Clone, Copy, Debug, PartialEq, Eq)]
pub enum AiResponseFormat {
    Json,
    Text,
}

/// A provider-neutral generation request.
#[derive(Debug)]
pub struct AiRequest {
    pub system: Option<String>,
    pub messages: Vec<AiMessage>,
    pub tools: Option<Vec<AiTool>>,
    pub response_format: Option<AiResponseFormat>,
}

/// A function definition on the wire; `parameters` is the JSON text of its schema.
#[derive(Debug)]
pub struct OpenAiFunction {
    pub name: String,
    pub description: String,
    pub parameters: String,
}

/// A tool definition on the wire.
#[derive(Debug)]
pub struct OpenAiTool {
    pub tool_type: String,
    pub function: OpenAiFunction,
}

/// Model of a tool definition.
pub struct ToolModel {
    pub tool_type: Seq<char>,
    pub name: Seq<char>,
    pub description: Seq<char>,
    pub parameters: Seq<char>,
}

impl View for OpenAiTool {
    type V = ToolModel;

    open spec fn view(&self) -> ToolModel {
        ToolModel {
            tool_type: self.tool_type@,
            name: self.function.name@,
            description: self.function.description@,
            parameters: self.function.parameters@,
        }
    }
}

/// A chat completions request. `response_format` is the value of the format's `type`
/// field; `stream_include_usage` stands for `stream_options: {"include_usage": ..}`.
#[derive(Debug)]
pub struct OpenAiRequest {
    pub model: String,
    pub messages: Vec<OpenAiMessage>,
    pub tools: Option<Vec<OpenAiTool>>,
    pub max_tokens: Option<u32>,
    pub max_completion_tokens: Option<u32>,
    pub response_format: Option<String>,
    pub stream: Option<bool>,
    pub stream_include_usage: Option<bool>,
}

/// A wire message with only a role and content.
pub open spec fn plain_message(role: Seq<char>, content: Option<Seq<char>>) -> MessageModel {
    MessageModel { role, content, tool_calls: None, tool_call_id: None }
}

/// The wire form of a requested tool call.
pub open spec fn wire_tool_call(t: ToolCall) -> ToolCallModel {
    ToolCallModel {
        id: t.id@,
        tool_type: "function"@,
        name: t.function_name@,
        arguments: t.arguments@,
    }
}

/// The wire form of one conversation message.
pub open spec fn wire_message(m: AiMessage) -> MessageModel {
    match m.role {
        AiRole::System => plain_message("system"@, opt_view(m.content)),
        AiRole::User => plain_message("user"@, opt_view(m.content)),
        AiRole::Assistant => MessageModel {
            role: "assistant"@,
            content: opt_view(m.content),
            tool_calls: match m.tool_calls {
                Some(tcs) => Some(tcs@.map_values(|t: ToolCall| wire_tool_call(t))),
                None => None,
            },
            tool_call_id: None,
        },
        AiRole::Tool => MessageModel {
            role: "tool"@,
            content: opt_view(m.content),
            tool_calls: None,
            tool_call_id: opt_view(m.tool_call_id),
        },
    }
}

/// The system prompt (if any) as a leading system message, then every message in order.
pub open spec fn base_messages(system: Option<String>, messages: Seq<AiMessage>) -> Seq<
    MessageModel,
> {
    let head = match system {
        Some(s) => seq![plain_message("system"@, Some(s@))],
        None => Seq::empty(),
    };
    head + messages.map_values(|m: AiMessage| wire_message(m))
}

/// The message's content mentions "json" (in any letter case).
pub open spec fn content_mentions_json(m: MessageModel) -> bool {
    match m.content {
        Some(c) => has_infix(lowercase(c), "json"@),
        None => false,
    }
}

/// Some message's content mentions "json" (in any letter case).
pub open spec fn mentions_json(ms: Seq<MessageModel>) -> bool {
    exists|i: int| 0 <= i < ms.len() && content_mentions_json(#[trigger] ms[i])
}

/// The first system message at or after position `i`.
pub open spec fn system_from(ms: Seq<MessageModel>, i: int) -> Option<int>
    decreases ms.len() - i,
    when 0 <= i <= ms.len()
{
    if i >= ms.len() {
        None
    } else if ms[i].role == "system"@ {
        Some(i)
    } else {
        system_from(ms, i + 1)
    }
}

/// The sentence that asks for JSON output.
pub open spec fn json_hint() -> Seq<char> {
    "Respond in JSON format."@
}

/// The messages with a request for JSON output added when none mentions JSON: appended
/// on a new line to the first system message, or as a new leading system message.
pub open spec fn with_json_hint(ms: Seq<MessageModel>) -> Seq<MessageModel> {
    if mentions_json(ms) {
        ms
    } else {
        match system_from(ms, 0) {
            Some(i) => ms.update(
                i,
                MessageModel {
                    content: Some(
                        match ms[i].content {
                            Some(c) => c,
                            None => Seq::empty(),
                        } + "\n"@ + json_hint(),
                    ),
                    ..ms[i]
                },
            ),
            None => seq![plain_message("system"@, Some(json_hint()))] + ms,
        }
    }
}

/// The wire messages of a request.
pub open spec fn request_messages(
    system: Option<String>,
    messages: Seq<AiMessage>,
    format: Option<AiResponseFormat>,
) -> Seq<MessageModel> {
    let base = base_messages(system, messages);
    if format == Some(AiResponseFormat::Json) {
        with_json_hint(base)
    } else {
        base
    }
}

/// The first system message at or after `i` lies within the messages.
proof fn lemma_system_from_bounds(ms: Seq<MessageModel>, i: int)
    requires
        0 <= i <= ms.len(),
    ensures
        system_from(ms, i) matches Some(k) ==> i <= k < ms.len() && ms[k].role == "system"@,
    decreases ms.len() - i,
{
    if i < ms.len() && ms[i].role != "system"@ {
        lemma_system_from_bounds(ms, i + 1);
    }
}

/// Every tool call an assistant message requests goes on the wire with the same id,
/// function name and arguments, in the same place: the wire messages are the request's
/// messages in order, after the few (system prompt, JSON hint) put before them.
pub proof fn lemma_wire_tool_calls_keep_ids(
    system: Option<String>,
    messages: Seq<AiMessage>,
    format: Option<AiResponseFormat>,
    i: int,
    j: int,
)
    requires
        0 <= i < messages.len(),
        messages[i].role == AiRole::Assistant,
        messages[i].tool_calls is Some,
        0 <= j < messages[i].tool_calls->0@.len(),
    ensures
        ({
            let out = request_messages(system, messages, format);
            let k = i + (out.len() - messages.len());
            let t = messages[i].tool_calls->0@[j];
            &&& messages.len() <= out.len() <= messages.len() + 2
            &&& out[k].role == "assistant"@
            &&& out[k].tool_calls matches Some(w) && j < w.len() && w[j].id == t.id@
                && w[j].name == t.function_name@ && w[j].arguments == t.arguments@
                && w[j].tool_type == "function"@
        }),
{
    let base = base_messages(system, messages);
    let h = base.len() - messages.len();
    assert(base[h + i] == wire_message(messages[i]));
    if format == Some(AiResponseFormat::Json) && !mentions_json(base) {
        lemma_system_from_bounds(base, 0);
        match system_from(base, 0) {
            Some(x) => {
                assert(with_json_hint(base)[h + i].tool_calls == base[h + i].tool_calls);
                assert(with_json_hint(base)[h + i].role == base[h + i].role);
            },
            None => {
                assert(with_json_hint(base)[h + i + 1] == base[h + i]);
            },
        }
    }
}

/// Each request message goes on the wire in order, after the few messages put before
/// them (system prompt, JSON hint), with its role's name; user, assistant and tool
/// messages keep their content; only tool messages carry the id of the call they answer,
/// and only assistant messages carry tool calls. Without a JSON format, the system prompt
/// is the first wire message, unchanged.
pub proof fn lemma_wire_messages_in_order(
    system: Option<String>,
    messages: Seq<AiMessage>,
    format: Option<AiResponseFormat>,
    i: int,
)
    requires
        0 <= i < messages.len(),
    ensures
        ({
            let out = request_messages(system, messages, format);
            let k = i + (out.len() - messages.len());
            let m = messages[i];
            &&& messages.len() <= out.len() <= messages.len() + 2
            &&& out[k].role == (match m.role {
                AiRole::System => "system"@,
                AiRole::User => "user"@,
                AiRole::Assistant => "assistant"@,
                AiRole::Tool => "tool"@,
            })
            &&& m.role != AiRole::System ==> out[k].content == opt_view(m.content)
            &&& out[k].tool_call_id == (if m.role == AiRole::Tool {
                opt_view(m.tool_call_id)
            } else {
                None
            })
            &&& m.role != AiRole::Assistant ==> out[k].tool_calls is None
        }),
        format != Some(AiResponseFormat::Json) ==> (system matches Some(s) ==> request_messages(
            system,
            messages,
            format,
        )[0] == plain_message("system"@, Some(s@))),
{
    let base = base_messages(system, messages);
    let h = base.len() - messages.len();
    assert(base[h + i] == wire_message(messages[i]));
    if format == Some(AiResponseFormat::Json) && !mentions_json(base) {
        lemma_system_from_bounds(base, 0);
        match system_from(base, 0) {
            Some(x) => {
                reveal_strlit("system");
                reveal_strlit("user");
                reveal_strlit("assistant");
                reveal_strlit("tool");
                assert("system"@.len() == 6 && "user"@.len() == 4 && "assistant"@.len() == 9
                    && "tool"@.len() == 4);
                if messages[i].role != AiRole::System {
                    assert(base[h + i].role.len() != 6);
                    assert(base[h + i].role != "system"@);
                    assert(x != h + i);
                    assert(with_json_hint(base)[h + i] == base[h + i]);
                }
                assert(with_json_hint(base)[h + i].tool_calls == base[h + i].tool_calls);
                assert(with_json_hint(base)[h + i].tool_call_id == base[h + i].tool_call_id);
                assert(with_json_hint(base)[h + i].role == base[h + i].role);
            },
            None => {
                assert(with_json_hint(base)[h + i + 1] == base[h + i]);
            },
        }
    }
}

/// The wire form of a tool definition.
pub open spec fn wire_tool(t: AiTool) -> ToolModel {
    ToolModel {
        tool_type: "function"@,
        name: t.name@,
        description: t.description@,
        parameters: t.parameters@,
    }
}

/// The wire tools: `None` when absent or empty.
pub open spec fn request_tools(tools: Option<Vec<AiTool>>) -> Option<Seq<ToolModel>> {
    match tools {
        Some(t) => if t@.len() == 0 {
            None
        } else {
            Some(t@.map_values(|x: AiTool| wire_tool(x)))
        },
        None => None,
    }
}

/// The `type` of the wire response format.
pub open spec fn format_type(f: Option<AiResponseFormat>) -> Option<Seq<char>> {
    match f {
        Some(AiResponseFormat::Json) => Some("json_object"@),
        Some(AiResponseFormat::Text) => Some("text"@),
        None => None,
    }
}

fn wire_tool_call_exec(t: &ToolCall) -> (r: OpenAiToolCall)
    ensures
        r@ == wire_tool_call(*t),
{
    OpenAiToolCall {
        id: t.id.clone(),
        tool_type: String::from_str("function"),
        function: OpenAiToolCallFunction {
            name: t.function_name.clone(),
            arguments: t.arguments.clone(),
        },
    }
}

fn wire_tool_calls(tcs: &Vec<ToolCall>) -> (r: Vec<OpenAiToolCall>)
    ensures
        crate::openai::types::tool_calls_view(r@) == tcs@.map_values(
            |t: ToolCall| wire_tool_call(t),
        ),
{
    let mut out: Vec<OpenAiToolCall> = Vec::new();
    let n = tcs.len();
    for i in 0..n
        invariant
            n == tcs@.len(),
            out@.len() == i,
            forall|j: int| 0 <= j < i ==> (#[trigger] out@[j])@ == wire_tool_call(tcs@[j]),
    {
        out.push(wire_tool_call_exec(&tcs[i]));
    }
    assert(crate::openai::types::tool_calls_view(out@) =~= tcs@.map_values(
        |t: ToolCall| wire_tool_call(t),
    ));
    out
}

fn wire_message_exec(m: &AiMessage) -> (r: OpenAiMessage)
    ensures
        r@ == wire_message(*m),
{
    match m.role {
        AiRole::System => OpenAiMessage {
            role: String::from_str("system"),
            content: clone_opt(&m.content),
            tool_calls: None,
            tool_call_id: None,
        },
        AiRole::User => OpenAiMessage {
            role: String::from_str("user"),
            content: clone_opt(&m.content),
            tool_calls: None,
            tool_call_id: None,
        },
        AiRole::Assistant => OpenAiMessage {
            role: String::from_str("assistant"),
            content: clone_opt(&m.content),
            tool_calls: match &m.tool_calls {
                Some(tcs) => Some(wire_tool_calls(tcs)),
                None => None,
            },
            tool_call_id: None,
        },
        AiRole::Tool => OpenAiMessage {
            role: String::from_str("tool"),
            content: clone_opt(&m.content),
            tool_calls: None,
            tool_call_id: clone_opt(&m.tool_call_id),
        },
    }
}

fn wire_tools(tools: &Option<Vec<AiTool>>) -> (r: Option<Vec<OpenAiTool>>)
    ensures
        match r {
            Some(v) => Some(v@.map_values(|x: OpenAiTool| x@)),
            None => None::<Seq<ToolModel>>,
        } == request_tools(*tools),
{
    match tools {
        None => None,
        Some(t) => {
            if t.len() == 0 {
                return None;
            }
            let mut out: Vec<OpenAiTool> = Vec::new();
            let n = t.len();
            for i in 0..n
                invariant
                    n == t@.len(),
                    out@.len() == i,
                    forall|j: int| 0 <= j < i ==> (#[trigger] out@[j])@ == wire_tool(t@[j]),
            {
                let x = &t[i];
                out.push(
                    OpenAiTool {
                        tool_type: String::from_str("function"),
                        function: OpenAiFunction {
                            name: x.name.clone(),
                            description: x.description.clone(),
                            parameters: x.parameters.clone(),
                        },
                    },
                );
            }
            assert(out@.map_values(|x: OpenAiTool| x@) =~= t@.map_values(|x: AiTool| wire_tool(x)));
            Some(out)
        },
    }
}

/// Whether some message's content mentions "json" in any letter case.
fn any_mentions_json(ms: &Vec<OpenAiMessage>) -> (b: bool)
    ensures
        b == mentions_json(messages_view(ms@)),
{
    let ghost v = messages_view(ms@);
    let n = ms.len();
    for i in 0..n
        invariant
            n == ms@.len(),
            v == messages_view(ms@),
            forall|j: int| 0 <= j < i ==> !content_mentions_json(#[trigger] v[j]),
    {
        match &ms[i].content {
            Some(c) => {
                let low = to_lowercase(c.as_str());
                if str_contains(low.as_str(), "json") {
                    assert(v[i as int].content == Some(c@));
                    assert(content_mentions_json(v[i as int]));
                    return true;
                }
            },
            None => {},
        }
    }
    false
}

/// Position of the first system message.
fn first_system(ms: &Vec<OpenAiMessage>) -> (r: Option<usize>)
    ensures
        match r {
            Some(k) => k < ms@.len() && system_from(messages_view(ms@), 0) == Some(k as int),
            None => system_from(messages_view(ms@), 0) is None,
        },
{
    let ghost v = messages_view(ms@);
    let n = ms.len();
    let mut i: usize = 0;
    while i < n
        invariant
            n == ms@.len(),
            v == messages_view(ms@),
            i <= n,
            system_from(v, 0) == system_from(v, i as int),
        decreases n - i,
    {
        if ms[i].role == String::from_str("system") {
            assert(v[i as int].role == "system"@);
            return Some(i);
        }
        i = i + 1;
    }
    None
}

/// Turns a provider-neutral request into a chat completions request (model, sampling
/// temperature and streaming fields are filled in by the caller).
///
/// When JSON output is requested and no message mentions JSON, the request is made to
/// ask for it explicitly, as the API requires. The output token limit is sent as
/// `max_completion_tokens` to the official API and as `max_tokens` elsewhere.
pub fn translate_ai_request(
    request: &AiRequest,
    max_tokens: u32,
    provider_type: OpenAiProviderType,
) -> (r: OpenAiRequest)
    ensures
        r.model@ == Seq::<char>::empty(),
        messages_view(r.messages@) == request_messages(
            request.system,
            request.messages@,
            request.response_format,
        ),
        match r.tools {
            Some(v) => Some(v@.map_values(|x: OpenAiTool| x@)),
            None => None::<Seq<ToolModel>>,
        } == request_tools(request.tools),
        opt_view(r.response_format) == format_type(request.response_format),
        r.max_tokens == (if provider_type == OpenAiProviderType::OpenAiCompatible {
            Some(max_tokens)
        } else {
            None
        }),
        r.max_completion_tokens == (if provider_type == OpenAiProviderType::OpenAi {
            Some(max_tokens)
        } else {
            None
        }),
        r.stream is None,
        r.stream_include_usage is None,
{
    let mut messages: Vec<OpenAiMessage> = Vec::new();
    match &request.system {
        Some(s) => {
            messages.push(
                OpenAiMessage {
                    role: String::from_str("system"),
                    content: Some(s.clone()),
                    tool_calls: None,
                    tool_call_id: None,
                },
            );
        },
        None => {},
    }
    let ghost head = messages_view(messages@);
    let ghost body = request.messages@.map_values(|m: AiMessage| wire_message(m));
    let n = request.messages.len();
    for i in 0..n
        invariant
            n == request.messages@.len(),
            body == request.messages@.map_values(|m: AiMessage| wire_message(m)),
            messages@.len() == head.len() + i,
            messages_view(messages@) == head + body.take(i as int),
    {
        let ghost before = messages@;
        let m = wire_message_exec(&request.messages[i]);
        messages.push(m);
        proof {
            assert(body[i as int] == wire_message(request.messages@[i as int]));
            assert(messages@ == before.push(m));
            assert(messages_view(messages@) =~= messages_view(before).push(m@));
            assert(body.take(i + 1) =~= body.take(i as int).push(body[i as int]));
            assert(messages_view(messages@) =~= head + body.take(i + 1));
        }
    }
    proof {
        assert(body.take(n as int) =~= body);
        assert(head + body =~= base_messages(request.system, request.messages@)) by {
            match request.system {
                Some(s) => assert(head =~= seq![plain_message("system"@, Some(s@))]),
                None => assert(head =~= Seq::<MessageModel>::empty()),
            }
        }
    }
    let is_json = match request.response_format {
        Some(AiResponseFormat::Json) => true,
        _ => false,
    };
    if is_json && !any_mentions_json(&messages) {
        let ghost base = messages_view(messages@);
        match first_system(&messages) {
            Some(i) => {
                let ghost before = messages@;
                let old_msg = messages.remove(i);
                let OpenAiMessage { role, content, tool_calls, tool_call_id } = old_msg;
                let mut c = match content {
                    Some(c) => c,
                    None => String::new(),
                };
                let ghost oc = c@;
                c.append("\nRespond in JSON format.");
                let new_msg = OpenAiMessage { role, content: Some(c), tool_calls, tool_call_id };
                let ghost nm = new_msg@;
                messages.insert(i, new_msg);
                proof {
                    reveal_strlit("\n");
                    reveal_strlit("Respond in JSON format.");
                    reveal_strlit("\nRespond in JSON format.");
                    assert("\nRespond in JSON format."@ =~= "\n"@ + "Respond in JSON format."@);
                    assert(old_msg@ == base[i as int]);
                    assert(oc == match base[i as int].content {
                        Some(x) => x,
                        None => Seq::<char>::empty(),
                    });
                    assert(oc + "\nRespond in JSON format."@ =~= oc + "\n"@ + json_hint());
                    assert(nm.content == Some(oc + "\n"@ + json_hint()));
                    assert(messages@ =~= before.update(i as int, new_msg));
                    assert(nm == (MessageModel {
                        content: Some(
                            match base[i as int].content {
                                Some(c) => c,
                                None => Seq::empty(),
                            } + "\n"@ + json_hint(),
                        ),
                        ..base[i as int]
                    }));
                    assert(messages_view(messages@) =~= base.update(i as int, nm));
                    assert(messages_view(messages@) =~= with_json_hint(base));
                }
            },
            None => {
                messages.insert(
                    0,
                    OpenAiMessage {
                        role: String::from_str("system"),
                        content: Some(String::from_str("Respond in JSON format.")),
                        tool_calls: None,
                        tool_call_id: None,
                    },
                );
                proof {
                    assert(messages_view(messages@) =~= with_json_hint(base));
                }
            },
        }
    }
    let tools = wire_tools(&request.tools);
    let response_format = match request.response_format {
        Some(AiResponseFormat::Json) => Some(String::from_str("json_object")),
        Some(AiResponseFormat::Text) => Some(String::from_str("text")),
        None => None,
    };
    let (max_tokens_field, max_completion_tokens_field) = match provider_type {
        OpenAiProviderType::OpenAi => (None, Some(max_tokens)),
        OpenAiProviderType::OpenAiCompatible => (Some(max_tokens), None),
    };
    OpenAiRequest {
        model: String::new(),
        messages,
        tools,
        max_tokens: max_tokens_field,
        max_completion_tokens: max_completion_tokens_field,
        response_format,
        stream: None,
        stream_include_usage: None,
    }
}


// ---------------------------------------------------------------------------
// Responses
// ---------------------------------------------------------------------------

/// Token accounting of a generation.
#[derive(Clone, Copy, Debug, PartialEq, Eq)]
pub struct AiUsage {
    pub prompt_tokens: usize,
    pub completion_tokens: usize,
    pub total_tokens: usize,
    pub cached_tokens: Option<usize>,
}

/// A provider-neutral generation result.
#[derive(Debug)]
pub struct AiResponse {
    pub content: Option<String>,
    pub tool_calls: Option<Vec<ToolCall>>,
    pub usage: Option<AiUsage>,
}

/// Model of a requested function call: id, function name, JSON arguments.
pub struct AiToolCallModel {
    pub id: Seq<char>,
    pub function_name: Seq<char>,
    pub arguments: Seq<char>,
}

impl View for ToolCall {
    type V = AiToolCallModel;

    open spec fn view(&self) -> AiToolCallModel {
        AiToolCallModel {
            id: self.id@,
            function_name: self.function_name@,
            arguments: self.arguments@,
        }
    }
}

/// The compact JSON text of the value that `text` parses to with `serde_json`; `None`
/// when `text` is not JSON.
pub uninterp spec fn json_printed(text: Seq<char>) -> Option<Seq<char>>;

/// Trusted: parses `text` with `serde_json::from_str` into a `serde_json::Value` and
/// prints that value with `Value::to_string` (compact, keys in the map's order); `None`
/// when the parse fails. A function of `text` alone, named [`json_printed`]; nothing else
/// is claimed of it.
#[verifier::external_body]
fn parse_and_print_json(text: &str) -> (r: Option<String>)
    ensures
        opt_view(r) == json_printed(text@),
{
    match serde_json::from_str::<serde_json::Value>(text) {
        Ok(v) => Some(v.to_string()),
        Err(_) => None,
    }
}

/// The arguments of a tool call in the provider-neutral form: the JSON text of the value
/// they parse to, or `null` when they are not JSON.
pub open spec fn neutral_arguments(text: Seq<char>) -> Seq<char> {
    match json_printed(text) {
        Some(t) => t,
        None => "null"@,
    }
}

/// A tool call the model made keeps its id and function name in the provider-neutral
/// form; its arguments become the JSON text of the value they parse to, or `null` when
/// they are not JSON.
pub proof fn lemma_neutral_tool_call_fields(t: ToolCallModel)
    ensures
        neutral_tool_call(t).id == t.id,
        neutral_tool_call(t).function_name == t.name,
        json_printed(t.arguments) matches Some(p) ==> neutral_tool_call(t).arguments == p,
        json_printed(t.arguments) is None ==> neutral_tool_call(t).arguments == "null"@,
{
}

/// Normalizes tool-call arguments (see [`neutral_arguments`]).
fn normalize_arguments(text: &str) -> (r: String)
    ensures
        r@ == neutral_arguments(text@),
{
    match parse_and_print_json(text) {
        Some(t) => t,
        None => String::from_str("null"),
    }
}

/// The provider-neutral form of a wire tool call: its arguments are parsed as JSON
/// (`null` when they are not JSON).
pub open spec fn neutral_tool_call(t: ToolCallModel) -> AiToolCallModel {
    AiToolCallModel { id: t.id, function_name: t.name, arguments: neutral_arguments(t.arguments) }
}

/// The usage of a response, widened to `usize`, without cache information.
pub open spec fn neutral_usage(u: crate::openai::types::OpenAiUsage) -> AiUsage {
    AiUsage {
        prompt_tokens: u.prompt_tokens as usize,
        completion_tokens: u.completion_tokens as usize,
        total_tokens: u.total_tokens as usize,
        cached_tokens: None,
    }
}

/// Reads a chat completions response: the first choice's content and tool calls,
/// and the usage. A response without choices is an error.
pub fn translate_ai_response(resp: &OpenAiResponse) -> (r: Result<AiResponse, String>)
    ensures
        resp.choices@.len() == 0 <==> r is Err,
        r matches Err(m) ==> m@ == "No choices in response"@,
        r matches Ok(a) ==> {
            let msg = resp@.choices[0].message;
            &&& opt_view(a.content) == msg.content
            &&& match a.tool_calls {
                Some(v) => msg.tool_calls matches Some(w) && v@.map_values(|t: ToolCall| t@)
                    == w.map_values(|t: ToolCallModel| neutral_tool_call(t)),
                None => msg.tool_calls is None,
            }
            &&& a.usage == Some(neutral_usage(resp.usage))
        },
{
    if resp.choices.len() == 0 {
        return Err(String::from_str("No choices in response"));
    }
    let choice = &resp.choices[0];
    let content = clone_opt(&choice.message.content);
    let tool_calls = match &choice.message.tool_calls {
        Some(tcs) => {
            let mut out: Vec<ToolCall> = Vec::new();
            let n = tcs.len();
            for i in 0..n
                invariant
                    n == tcs@.len(),
                    out@.len() == i,
                    forall|j: int|
                        0 <= j < i ==> (#[trigger] out@[j])@ == neutral_tool_call(tcs@[j]@),
            {
                let t = &tcs[i];
                out.push(
                    ToolCall {
                        id: t.id.clone(),
                        function_name: t.function.name.clone(),
                        arguments: normalize_arguments(t.function.arguments.as_str()),
                    },
                );
            }
            proof {
                let w = crate::openai::types::tool_calls_view(tcs@);
                assert(out@.map_values(|t: ToolCall| t@) =~= w.map_values(
                    |t: ToolCallModel| neutral_tool_call(t),
                ));
            }
            Some(out)
        },
        None => None,
    };
    let usage = AiUsage {
        prompt_tokens: resp.usage.prompt_tokens as usize,
        completion_tokens: resp.usage.completion_tokens as usize,
        total_tokens: resp.usage.total_tokens as usize,
        cached_tokens: None,
    };
    Ok(AiResponse { content, tool_calls, usage: Some(usage) })
}

// ---------------------------------------------------------------------------
// Prompt size estimate
// ---------------------------------------------------------------------------

/// Estimated tokens of a requested tool call: its name and its JSON arguments.
pub open spec fn call_tokens(t: ToolCall) -> nat {
    estimated_tokens(t.function_name@) + estimated_tokens(t.arguments@)
}

/// Estimated tokens of a message: its content and its tool calls.
pub open spec fn message_tokens(m: AiMessage) -> nat {
    (match m.content {
        Some(c) => estimated_tokens(c@),
        None => 0,
    }) + (match m.tool_calls {
        Some(tcs) => sum_nat(tcs@.map_values(|t: ToolCall| call_tokens(t))),
        None => 0,
    })
}

/// Estimated tokens of a tool definition: name, description and JSON schema.
pub open spec fn tool_tokens(t: AiTool) -> nat {
    estimated_tokens(t.name@) + estimated_tokens(t.description@) + estimated_tokens(
        t.parameters@,
    )
}

/// Estimated prompt tokens of a request: system prompt, messages and tool definitions.
pub open spec fn request_tokens(r: AiRequest) -> nat {
    (match r.system {
        Some(s) => estimated_tokens(s@),
        None => 0,
    }) + sum_nat(r.messages@.map_values(|m: AiMessage| message_tokens(m))) + sum_nat(
        tool_terms(r.tools),
    )
}

/// The estimated tokens of each tool definition.
pub open spec fn tool_terms(tools: Option<Vec<AiTool>>) -> Seq<nat> {
    match tools {
        Some(ts) => ts@.map_values(|t: AiTool| tool_tokens(t)),
        None => Seq::empty(),
    }
}

/// A message's content and each of its tool calls are estimated independently and
/// added up: giving a message content adds the content's estimate whatever tool calls it
/// has, and giving it tool calls adds each call's name and arguments estimates whatever
/// content it has; a message with neither counts nothing.
pub proof fn lemma_message_tokens_parts(m: AiMessage, c: String, tcs: Vec<ToolCall>)
    ensures
        message_tokens(AiMessage { content: Some(c), ..m }) == message_tokens(
            AiMessage { content: None, ..m },
        ) + estimated_tokens(c@),
        message_tokens(AiMessage { tool_calls: Some(tcs), ..m }) == message_tokens(
            AiMessage { tool_calls: None, ..m },
        ) + sum_nat(
            tcs@.map_values(
                |t: ToolCall| estimated_tokens(t.function_name@) + estimated_tokens(t.arguments@),
            ),
        ),
        message_tokens(AiMessage { content: None, tool_calls: None, ..m }) == 0,
{
    assert(tcs@.map_values(|t: ToolCall| call_tokens(t)) =~= tcs@.map_values(
        |t: ToolCall| estimated_tokens(t.function_name@) + estimated_tokens(t.arguments@),
    ));
}

/// The prompt estimate of a request adds up, independently, the system prompt's
/// estimate, every message's estimate and every tool definition's name, description and
/// schema estimates.
pub proof fn lemma_request_tokens_parts(r: AiRequest, s: String, tools: Vec<AiTool>)
    ensures
        request_tokens(AiRequest { system: Some(s), ..r }) == request_tokens(
            AiRequest { system: None, ..r },
        ) + estimated_tokens(s@),
        request_tokens(AiRequest { tools: Some(tools), ..r }) == request_tokens(
            AiRequest { tools: None, ..r },
        ) + sum_nat(
            tools@.map_values(
                |t: AiTool|
                    estimated_tokens(t.name@) + estimated_tokens(t.description@) + estimated_tokens(
                        t.parameters@,
                    ),
            ),
        ),
        request_tokens(AiRequest { system: None, tools: None, ..r }) == sum_nat(
            r.messages@.map_values(|m: AiMessage| message_tokens(m)),
        ),
{
    assert(tool_terms(None) =~= Seq::<nat>::empty());
    assert(sum_nat(Seq::<nat>::empty()) == 0);
    assert(tools@.map_values(|t: AiTool| tool_tokens(t)) =~= tools@.map_values(
        |t: AiTool|
            estimated_tokens(t.name@) + estimated_tokens(t.description@) + estimated_tokens(
                t.parameters@,
            ),
    ));
}

fn message_tokens_exec(m: &AiMessage) -> (n: usize)
    requires
        message_tokens(*m) <= usize::MAX,
    ensures
        n == message_tokens(*m),
{
    let mut total: usize = match &m.content {
        Some(c) => estimate_tokens(c.as_str()),
        None => 0,
    };
    match &m.tool_calls {
        Some(tcs) => {
            let ghost terms = tcs@.map_values(|t: ToolCall| call_tokens(t));
            let ghost base = total as nat;
            let n = tcs.len();
            proof {
                lemma_sum_take_ends(terms);
            }
            for i in 0..n
                invariant
                    n == tcs@.len(),
                    terms == tcs@.map_values(|t: ToolCall| call_tokens(t)),
                    base + sum_nat(terms) <= usize::MAX,
                    total == base + sum_nat(terms.take(i as int)),
            {
                proof {
                    lemma_sum_take_step(terms, i as int);
                    lemma_sum_take_le(terms, i + 1);
                }
                let call = &tcs[i];
                total = total + estimate_tokens(call.function_name.as_str()) + estimate_tokens(
                    call.arguments.as_str(),
                );
            }
            proof {
                lemma_sum_take_ends(terms);
            }
        },
        None => {},
    }
    total
}

/// Estimates the prompt tokens of a request (see [`request_tokens`]).
pub fn estimate_tokens_generic(request: &AiRequest) -> (n: usize)
    requires
        request_tokens(*request) <= usize::MAX,
    ensures
        n == request_tokens(*request),
{
    let mut total: usize = match &request.system {
        Some(s) => estimate_tokens(s.as_str()),
        None => 0,
    };
    let ghost sys = total as nat;
    let ghost mterms = request.messages@.map_values(|m: AiMessage| message_tokens(m));
    let ghost tterms = tool_terms(request.tools);
    proof {
        lemma_sum_take_ends(mterms);
        lemma_sum_take_ends(tterms);
        assert(sum_nat(Seq::<nat>::empty()) == 0);
    }
    let n = request.messages.len();
    for i in 0..n
        invariant
            n == request.messages@.len(),
            mterms == request.messages@.map_values(|m: AiMessage| message_tokens(m)),
            sys + sum_nat(mterms) + sum_nat(tterms) <= usize::MAX,
            total == sys + sum_nat(mterms.take(i as int)),
    {
        proof {
            lemma_sum_take_step(mterms, i as int);
            lemma_sum_take_le(mterms, i + 1);
        }
        total = total + message_tokens_exec(&request.messages[i]);
    }
    proof {
        lemma_sum_take_ends(mterms);
    }
    match &request.tools {
        Some(ts) => {
            assert(tterms == ts@.map_values(|t: AiTool| tool_tokens(t)));
            let k = ts.len();
            for i in 0..k
                invariant
                    k == ts@.len(),
                    tterms == ts@.map_values(|t: AiTool| tool_tokens(t)),
                    sys + sum_nat(mterms) + sum_nat(tterms) <= usize::MAX,
                    total == sys + sum_nat(mterms) + sum_nat(tterms.take(i as int)),
            {
                proof {
                    lemma_sum_take_step(tterms, i as int);
                    lemma_sum_take_le(tterms, i + 1);
                }
                let t = &ts[i];
                total = total + estimate_tokens(t.name.as_str()) + estimate_tokens(
                    t.description.as_str(),
                ) + estimate_tokens(t.parameters.as_str());
            }
            proof {
                lemma_sum_take_ends(tterms);
            }
        },
        None => {},
    }
    total
}

} // verus!
