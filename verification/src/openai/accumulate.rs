//! Folding decoded stream chunks into one chat completion response.

use vstd::prelude::*;
use vstd::utf8::{decode_utf8, encode_utf8, valid_utf8};
use crate::numbers::{decimal_text, push_decimal};
use crate::openai::stream::{drain_next_sse_event, event_boundary, event_data, sse_event_data};
use crate::openai::types::{
    clone_opt, opt_view, retry_after_secs, secs, ChoiceModel, ErrorModel, MessageModel,
    OpenAiChoice, OpenAiCompatError, OpenAiMessage, OpenAiResponse, OpenAiToolCall,
    OpenAiToolCallFunction, OpenAiUsage, ResponseModel, ToolCallModel,
};
use crate::text::{has_infix, has_prefix, str_contains, trim, trimmed};

verus! {

// ---------------------------------------------------------------------------
// Decoded stream payloads
// ---------------------------------------------------------------------------

/// Incremental function-call data of a streamed tool call.
#[derive(Debug)]
pub struct OpenAiToolCallFunctionDelta {
    pub name: Option<String>,
    pub arguments: Option<String>,
}

/// Incremental data of one streamed tool call, identified by its index.
#[derive(Debug)]
pub struct OpenAiToolCallDelta {
    pub index: u32,
    pub id: Option<String>,
    pub tool_type: Option<String>,
    pub function: Option<OpenAiToolCallFunctionDelta>,
}

/// Incremental message data of one streamed choice.
#[derive(Debug)]
pub struct OpenAiDelta {
    pub role: Option<String>,
    pub content: Option<String>,
    pub tool_calls: Option<Vec<OpenAiToolCallDelta>>,
}

/// One choice of a streamed chunk.
#[derive(Debug)]
pub struct OpenAiStreamChoice {
    pub index: u32,
    pub delta: OpenAiDelta,
    pub finish_reason: Option<String>,
}

/// One streamed chunk (`choices` is empty when the JSON has none).
#[derive(Debug)]
pub struct OpenAiStreamChunk {
    pub choices: Vec<OpenAiStreamChoice>,
    pub usage: Option<OpenAiUsage>,
}

/// The `error` object of an in-stream error; `code` is the JSON text of its `code` value.
#[derive(Debug)]
pub struct OpenAiStreamErrorBody {
    pub message: Option<String>,
    pub error_type: Option<String>,
    pub code: Option<String>,
}

/// What one `data:` payload decodes to.
#[derive(Debug)]
pub enum StreamPayload {
    /// An in-stream error object (`{"error": {...}}`).
    Error(OpenAiStreamErrorBody),
    /// A completion chunk.
    Chunk(OpenAiStreamChunk),
    /// Neither; carries the decoder's message for the chunk attempt.
    Malformed(String),
}

// ---------------------------------------------------------------------------
// In-stream errors
// ---------------------------------------------------------------------------

/// The detail text of an in-stream error: its message (or a default), followed by the
/// code in parentheses when there is one.
pub open spec fn stream_error_detail(body: OpenAiStreamErrorBody) -> Seq<char> {
    let message = match body.message {
        Some(m) => m@,
        None => "OpenAI stream returned an error"@,
    };
    let code = match body.code {
        Some(c) => c@,
        None => Seq::empty(),
    };
    if code.len() == 0 {
        message
    } else {
        message + " ("@ + code + ")"@
    }
}

/// Classification of an in-stream error: rate limits wait 60 s, server-side trouble is
/// transient (30 s), anything else is an API error reported with status 200.
pub open spec fn stream_error_model(body: OpenAiStreamErrorBody) -> ErrorModel {
    let error_type = match body.error_type {
        Some(t) => t@,
        None => Seq::empty(),
    };
    let code = match body.code {
        Some(c) => c@,
        None => Seq::empty(),
    };
    if has_infix(error_type, "rate_limit"@) || has_infix(code, "429"@) {
        ErrorModel::RateLimitExceeded(secs(60))
    } else if has_infix(error_type, "server"@) || has_infix(error_type, "overload"@) || has_infix(
        code,
        "bad_gateway"@,
    ) || has_infix(code, "timeout"@) {
        ErrorModel::TransientError(secs(30), stream_error_detail(body))
    } else {
        ErrorModel::ApiError(200, stream_error_detail(body))
    }
}

/// How an in-stream error is classified, by its `type` and `code` texts: a type naming a
/// rate limit or a code containing `429` is a rate limit (retry after 60 s); otherwise a
/// type naming the server or an overload, or a code naming a bad gateway or a timeout, is
/// transient (retry after 30 s); anything else is an API error with status 200. The
/// error keeps its detail: the message (or a default) and the code in parentheses when
/// there is one.
pub proof fn lemma_stream_error_classes(body: OpenAiStreamErrorBody)
    ensures
        ({
            let t = match body.error_type {
                Some(x) => x@,
                None => Seq::<char>::empty(),
            };
            let c = match body.code {
                Some(x) => x@,
                None => Seq::<char>::empty(),
            };
            let msg = match body.message {
                Some(x) => x@,
                None => "OpenAI stream returned an error"@,
            };
            let detail = if c.len() == 0 {
                msg
            } else {
                msg + " ("@ + c + ")"@
            };
            let limited = has_infix(t, "rate_limit"@) || has_infix(c, "429"@);
            let transient = has_infix(t, "server"@) || has_infix(t, "overload"@) || has_infix(
                c,
                "bad_gateway"@,
            ) || has_infix(c, "timeout"@);
            &&& limited ==> stream_error_model(body) == ErrorModel::RateLimitExceeded(
                crate::openai::types::RetryAfter { secs: 60, nanos: 0 },
            )
            &&& !limited && transient ==> stream_error_model(body) == ErrorModel::TransientError(
                crate::openai::types::RetryAfter { secs: 30, nanos: 0 },
                detail,
            )
            &&& !limited && !transient ==> stream_error_model(body) == ErrorModel::ApiError(
                200,
                detail,
            )
        }),
{
}

fn string_or(o: &Option<String>, default: &str) -> (r: String)
    ensures
        r@ == match *o {
            Some(s) => s@,
            None => default@,
        },
{
    match o {
        Some(s) => s.clone(),
        None => String::from_str(default),
    }
}

/// Converts an in-stream error object into the error it reports.
pub fn stream_error_to_openai_error(body: &OpenAiStreamErrorBody) -> (e: OpenAiCompatError)
    ensures
        e@ == stream_error_model(*body),
{
    proof {
        reveal_strlit("");
        assert(""@ =~= Seq::<char>::empty());
    }
    let message = string_or(&body.message, "OpenAI stream returned an error");
    let error_type = string_or(&body.error_type, "");
    let code = string_or(&body.code, "");
    let detail = if code.as_str().is_empty() {
        message
    } else {
        let mut d = message;
        d.append(" (");
        d.append(code.as_str());
        d.append(")");
        d
    };
    if str_contains(error_type.as_str(), "rate_limit") || str_contains(code.as_str(), "429") {
        OpenAiCompatError::RateLimitExceeded(retry_after_secs(60))
    } else if str_contains(error_type.as_str(), "server") || str_contains(
        error_type.as_str(),
        "overload",
    ) || str_contains(code.as_str(), "bad_gateway") || str_contains(code.as_str(), "timeout") {
        OpenAiCompatError::TransientError(retry_after_secs(30), detail)
    } else {
        OpenAiCompatError::ApiError(200, detail)
    }
}

// ---------------------------------------------------------------------------
// Tool-call accumulation
// ---------------------------------------------------------------------------

/// A tool call being assembled from deltas.
pub struct ToolCallAccumulator {
    pub id: Option<String>,
    pub tool_type: Option<String>,
    pub name: Option<String>,
    pub arguments: String,
}

/// Model of a tool call being assembled.
pub struct ToolCallAccModel {
    pub id: Option<Seq<char>>,
    pub tool_type: Option<Seq<char>>,
    pub name: Option<Seq<char>>,
    pub arguments: Seq<char>,
}

impl View for ToolCallAccumulator {
    type V = ToolCallAccModel;

    open spec fn view(&self) -> ToolCallAccModel {
        ToolCallAccModel {
            id: opt_view(self.id),
            tool_type: opt_view(self.tool_type),
            name: opt_view(self.name),
            arguments: self.arguments@,
        }
    }
}

/// A tool call on which no delta has been applied.
pub open spec fn empty_tool_call() -> ToolCallAccModel {
    ToolCallAccModel { id: None, tool_type: None, name: None, arguments: Seq::empty() }
}

/// `o` if it is set, else `fallback`.
pub open spec fn first_set(o: Option<Seq<char>>, fallback: Option<Seq<char>>) -> Option<Seq<char>> {
    if o is Some {
        o
    } else {
        fallback
    }
}

/// One delta applied to a tool call: the first id, type and name seen are kept;
/// argument fragments are appended.
pub open spec fn merge_delta(e: ToolCallAccModel, d: OpenAiToolCallDelta) -> ToolCallAccModel {
    ToolCallAccModel {
        id: first_set(e.id, opt_view(d.id)),
        tool_type: first_set(e.tool_type, opt_view(d.tool_type)),
        name: match d.function {
            Some(f) => first_set(e.name, opt_view(f.name)),
            None => e.name,
        },
        arguments: match d.function {
            Some(f) => match f.arguments {
                Some(a) => e.arguments + a@,
                None => e.arguments,
            },
            None => e.arguments,
        },
    }
}

/// The keys of `s` are strictly increasing.
pub open spec fn keys_increasing(s: Seq<(u32, ToolCallAccModel)>) -> bool {
    forall|i: int, j: int| 0 <= i < j < s.len() ==> s[i].0 < s[j].0
}

/// `s` has an entry with key `k`.
pub open spec fn has_key(s: Seq<(u32, ToolCallAccModel)>, k: u32) -> bool {
    exists|i: int| 0 <= i < s.len() && s[i].0 == k
}

/// The position of the entry with key `k` (meaningful when [`has_key`] holds).
pub open spec fn key_pos(s: Seq<(u32, ToolCallAccModel)>, k: u32) -> int {
    choose|i: int| 0 <= i < s.len() && s[i].0 == k
}

/// The number of entries of `s` whose key is below `k`: where a new key `k` goes.
pub open spec fn count_below(s: Seq<(u32, ToolCallAccModel)>, k: u32) -> nat
    decreases s.len(),
{
    if s.len() == 0 {
        0
    } else {
        count_below(s.drop_last(), k) + if s.last().0 < k {
            1nat
        } else {
            0nat
        }
    }
}

/// The tool calls after one delta: the entry with the delta's index is merged, or a new
/// entry is inserted in index order.
pub open spec fn calls_after_delta(s: Seq<(u32, ToolCallAccModel)>, d: OpenAiToolCallDelta) -> Seq<
    (u32, ToolCallAccModel),
> {
    if has_key(s, d.index) {
        let i = key_pos(s, d.index);
        s.update(i, (d.index, merge_delta(s[i].1, d)))
    } else {
        s.insert(count_below(s, d.index) as int, (d.index, merge_delta(empty_tool_call(), d)))
    }
}

/// The tool calls after a sequence of deltas, applied in order.
pub open spec fn calls_after_deltas(s: Seq<(u32, ToolCallAccModel)>, ds: Seq<OpenAiToolCallDelta>) -> Seq<
    (u32, ToolCallAccModel),
>
    decreases ds.len(),
{
    if ds.len() == 0 {
        s
    } else {
        calls_after_delta(calls_after_deltas(s, ds.drop_last()), ds.last())
    }
}

/// Model of the stream accumulator.
pub struct AccumulatorModel {
    pub role: Option<Seq<char>>,
    pub content: Seq<char>,
    pub tool_calls: Seq<(u32, ToolCallAccModel)>,
    pub finish_reason: Option<Seq<char>>,
    pub usage: Option<OpenAiUsage>,
}

/// The accumulator before any chunk.
pub open spec fn empty_accumulator() -> AccumulatorModel {
    AccumulatorModel {
        role: None,
        content: Seq::empty(),
        tool_calls: Seq::empty(),
        finish_reason: None,
        usage: None,
    }
}

/// One streamed choice folded into the accumulator: role and finish reason are replaced
/// when present, content is appended, tool-call deltas are applied in order.
pub open spec fn after_choice(m: AccumulatorModel, c: OpenAiStreamChoice) -> AccumulatorModel {
    AccumulatorModel {
        role: match c.delta.role {
            Some(r) => Some(r@),
            None => m.role,
        },
        content: match c.delta.content {
            Some(t) => m.content + t@,
            None => m.content,
        },
        tool_calls: match c.delta.tool_calls {
            Some(ds) => calls_after_deltas(m.tool_calls, ds@),
            None => m.tool_calls,
        },
        finish_reason: match c.finish_reason {
            Some(f) => Some(f@),
            None => m.finish_reason,
        },
        usage: m.usage,
    }
}

/// A sequence of streamed choices folded in order.
pub open spec fn after_choices(m: AccumulatorModel, cs: Seq<OpenAiStreamChoice>) -> AccumulatorModel
    decreases cs.len(),
{
    if cs.len() == 0 {
        m
    } else {
        after_choice(after_choices(m, cs.drop_last()), cs.last())
    }
}

/// One chunk folded into the accumulator: its usage (if any) replaces the recorded one,
/// then its choices are folded in order.
pub open spec fn after_chunk(m: AccumulatorModel, ch: OpenAiStreamChunk) -> AccumulatorModel {
    let m1 = AccumulatorModel {
        usage: match ch.usage {
            Some(u) => Some(u),
            None => m.usage,
        },
        ..m
    };
    after_choices(m1, ch.choices@)
}

// ---------------------------------------------------------------------------
// The final response
// ---------------------------------------------------------------------------

/// Token estimate of a text: one token per four characters.
pub open spec fn estimated_tokens(s: Seq<char>) -> nat {
    s.len() / 4
}

/// Estimates the number of tokens of `text` (one per four characters).
pub fn estimate_tokens(text: &str) -> (n: usize)
    ensures
        n == estimated_tokens(text@),
{
    text.unicode_len() / 4
}

/// A finished tool call: a missing id becomes `call_<index>`, a missing type `function`,
/// a missing name the empty string.
pub open spec fn finished_call(e: (u32, ToolCallAccModel)) -> ToolCallModel {
    ToolCallModel {
        id: match e.1.id {
            Some(i) => i,
            None => "call_"@ + decimal_text(e.0 as nat),
        },
        tool_type: match e.1.tool_type {
            Some(t) => t,
            None => "function"@,
        },
        name: match e.1.name {
            Some(n) => n,
            None => Seq::empty(),
        },
        arguments: e.1.arguments,
    }
}

/// The finished tool calls, in index order.
pub open spec fn finished_calls(s: Seq<(u32, ToolCallAccModel)>) -> Seq<ToolCallModel> {
    s.map_values(|e: (u32, ToolCallAccModel)| finished_call(e))
}

/// Estimated tokens of the names and arguments of `calls`.
pub open spec fn tool_call_tokens(calls: Seq<ToolCallModel>) -> nat
    decreases calls.len(),
{
    if calls.len() == 0 {
        0
    } else {
        tool_call_tokens(calls.drop_last()) + estimated_tokens(calls.last().name)
            + estimated_tokens(calls.last().arguments)
    }
}

/// Estimated completion tokens when the stream reported no usage.
pub open spec fn fallback_completion(m: AccumulatorModel) -> nat {
    estimated_tokens(m.content) + tool_call_tokens(finished_calls(m.tool_calls))
}

/// Usage estimated from the prompt size and the completion text.
pub open spec fn fallback_usage(prompt_tokens: u32, completion: nat) -> OpenAiUsage {
    OpenAiUsage {
        prompt_tokens,
        completion_tokens: completion as u32,
        total_tokens: (prompt_tokens + completion) as u32,
    }
}

/// The estimated usage fits in `u32` (the estimate is summed without overflow).
pub open spec fn usage_fits(m: AccumulatorModel, prompt_tokens: u32) -> bool {
    m.usage is None ==> prompt_tokens + fallback_completion(m) <= u32::MAX
}

/// The response assembled from the accumulator, or the error for an empty stream.
pub open spec fn response_of(m: AccumulatorModel, prompt_tokens: u32) -> Result<
    ResponseModel,
    ErrorModel,
> {
    if m.content.len() == 0 && m.tool_calls.len() == 0 {
        Err(ErrorModel::ApiError(200, "OpenAI stream completed without content or tool calls"@))
    } else {
        let tool_calls = if m.tool_calls.len() > 0 {
            Some(finished_calls(m.tool_calls))
        } else {
            None
        };
        let content = if m.content.len() > 0 {
            Some(m.content)
        } else {
            None
        };
        let usage = match m.usage {
            Some(u) => u,
            None => fallback_usage(prompt_tokens, fallback_completion(m)),
        };
        let finish_reason = match m.finish_reason {
            Some(f) => f,
            None => if tool_calls is Some {
                "tool_calls"@
            } else {
                "stop"@
            },
        };
        Ok(
            ResponseModel {
                choices: seq![
                    ChoiceModel {
                        index: 0,
                        message: MessageModel {
                            role: match m.role {
                                Some(r) => r,
                                None => "assistant"@,
                            },
                            content,
                            tool_calls,
                            tool_call_id: None,
                        },
                        finish_reason,
                    },
                ],
                usage,
            },
        )
    }
}

/// The model of a response result.
pub open spec fn result_view(r: Result<OpenAiResponse, OpenAiCompatError>) -> Result<
    ResponseModel,
    ErrorModel,
> {
    match r {
        Ok(x) => Ok(x@),
        Err(e) => Err(e@),
    }
}

// ---------------------------------------------------------------------------
// The accumulator
// ---------------------------------------------------------------------------

/// Everything received so far of a streamed completion.
pub struct OpenAiStreamAccumulator {
    role: Option<String>,
    content: String,
    tool_calls: Vec<(u32, ToolCallAccumulator)>,
    finish_reason: Option<String>,
    usage: Option<OpenAiUsage>,
}

impl View for OpenAiStreamAccumulator {
    type V = AccumulatorModel;

    closed spec fn view(&self) -> AccumulatorModel {
        AccumulatorModel {
            role: opt_view(self.role),
            content: self.content@,
            tool_calls: self.tool_calls@.map_values(
                |e: (u32, ToolCallAccumulator)| (e.0, e.1@),
            ),
            finish_reason: opt_view(self.finish_reason),
            usage: self.usage,
        }
    }
}

proof fn lemma_count_below(s: Seq<(u32, ToolCallAccModel)>, k: u32, p: int)
    requires
        0 <= p <= s.len(),
        forall|j: int| 0 <= j < p ==> #[trigger] s[j].0 < k,
        forall|j: int| p <= j < s.len() ==> #[trigger] s[j].0 >= k,
    ensures
        count_below(s, k) == p,
    decreases s.len(),
{
    if s.len() > 0 {
        let t = s.drop_last();
        if p == s.len() {
            assert forall|j: int| 0 <= j < p - 1 implies #[trigger] t[j].0 < k by {
                assert(t[j] == s[j]);
            }
            lemma_count_below(t, k, p - 1);
        } else {
            assert forall|j: int| 0 <= j < p implies #[trigger] t[j].0 < k by {
                assert(t[j] == s[j]);
            }
            assert forall|j: int| p <= j < t.len() implies #[trigger] t[j].0 >= k by {
                assert(t[j] == s[j]);
            }
            lemma_count_below(t, k, p);
        }
    }
}

fn merge_delta_exec(e: ToolCallAccumulator, d: &OpenAiToolCallDelta) -> (r: ToolCallAccumulator)
    ensures
        r@ == merge_delta(e@, *d),
{
    let ToolCallAccumulator { id, tool_type, name, arguments } = e;
    let id = if id.is_some() {
        id
    } else {
        clone_opt(&d.id)
    };
    let tool_type = if tool_type.is_some() {
        tool_type
    } else {
        clone_opt(&d.tool_type)
    };
    let mut arguments = arguments;
    let name = match &d.function {
        Some(f) => {
            match &f.arguments {
                Some(a) => arguments.append(a.as_str()),
                None => {},
            }
            if name.is_some() {
                name
            } else {
                clone_opt(&f.name)
            }
        },
        None => name,
    };
    ToolCallAccumulator { id, tool_type, name, arguments }
}

impl OpenAiStreamAccumulator {
    /// Invariant: tool calls are kept in strictly increasing index order.
    pub open spec fn wf(&self) -> bool {
        keys_increasing(self@.tool_calls)
    }

    /// An accumulator that has received nothing.
    pub fn new() -> (a: Self)
        ensures
            a@ == empty_accumulator(),
            a.wf(),
    {
        let a = OpenAiStreamAccumulator {
            role: None,
            content: String::new(),
            tool_calls: Vec::new(),
            finish_reason: None,
            usage: None,
        };
        assert(a@.tool_calls =~= Seq::empty());
        a
    }

    /// Applies one tool-call delta: merged into the call with the same index, or added
    /// as a new call in index order.
    pub fn apply_tool_call_delta(&mut self, delta: &OpenAiToolCallDelta)
        requires
            old(self).wf(),
        ensures
            final(self).wf(),
            final(self)@ == (AccumulatorModel {
                tool_calls: calls_after_delta(old(self)@.tool_calls, *delta),
                ..old(self)@
            }),
    {
        let ghost s = self@.tool_calls;
        let n = self.tool_calls.len();
        let mut p: usize = 0;
        while p < n && self.tool_calls[p].0 < delta.index
            invariant
                n == self.tool_calls@.len(),
                s == self@.tool_calls,
                p <= n,
                forall|j: int| 0 <= j < p ==> #[trigger] s[j].0 < delta.index,
            decreases n - p,
        {
            p = p + 1;
        }
        if p < n && self.tool_calls[p].0 == delta.index {
            proof {
                assert(s[p as int].0 == delta.index);
                assert(has_key(s, delta.index));
                let i = key_pos(s, delta.index);
                assert(i == p) by {
                    if i < p {
                        assert(s[i].0 < delta.index);
                    } else if i > p {
                        assert(s[p as int].0 < s[i].0);
                    }
                }
            }
            let (k, entry) = self.tool_calls.remove(p);
            let merged = merge_delta_exec(entry, delta);
            self.tool_calls.insert(p, (k, merged));
            proof {
                assert(self@.tool_calls =~= s.update(p as int, (delta.index, merge_delta(s[p as int].1, *delta))));
            }
        } else {
            proof {
                assert(!has_key(s, delta.index)) by {
                    if has_key(s, delta.index) {
                        let i = choose|i: int| 0 <= i < s.len() && s[i].0 == delta.index;
                        if i < p {
                            assert(s[i].0 < delta.index);
                        } else {
                            assert(p < n);
                            if i > p {
                                assert(s[p as int].0 < s[i].0);
                            }
                        }
                    }
                }
                assert forall|j: int| p <= j < s.len() implies #[trigger] s[j].0 >= delta.index by {
                    if j > p {
                        assert(s[p as int].0 < s[j].0);
                    }
                }
                lemma_count_below(s, delta.index, p as int);
            }
            let empty = ToolCallAccumulator {
                id: None,
                tool_type: None,
                name: None,
                arguments: String::new(),
            };
            let merged = merge_delta_exec(empty, delta);
            self.tool_calls.insert(p, (delta.index, merged));
            proof {
                assert(self@.tool_calls =~= s.insert(p as int, (delta.index, merge_delta(empty_tool_call(), *delta))));
                assert forall|i: int, j: int| 0 <= i < j < self@.tool_calls.len() implies
                    self@.tool_calls[i].0 < self@.tool_calls[j].0 by {
                    let t = self@.tool_calls;
                    if j < p {
                    } else if j == p {
                    } else if i < p {
                        assert(t[j] == s[j - 1]);
                    } else if i == p {
                        assert(t[j] == s[j - 1]);
                    } else {
                        assert(t[i] == s[i - 1] && t[j] == s[j - 1]);
                    }
                }
            }
        }
    }
}


impl OpenAiStreamAccumulator {
    /// Folds one streamed choice into the accumulator.
    pub fn apply_choice(&mut self, c: &OpenAiStreamChoice)
        requires
            old(self).wf(),
        ensures
            final(self).wf(),
            final(self)@ == after_choice(old(self)@, *c),
    {
        match &c.delta.role {
            Some(r) => {
                self.role = Some(r.clone());
            },
            None => {},
        }
        match &c.delta.content {
            Some(t) => {
                self.content.append(t.as_str());
            },
            None => {},
        }
        match &c.delta.tool_calls {
            Some(ds) => {
                let ghost m0 = self@;
                let n = ds.len();
                assert(ds@.take(0) =~= Seq::<OpenAiToolCallDelta>::empty());
                for j in 0..n
                    invariant
                        n == ds@.len(),
                        self.wf(),
                        self@ == (AccumulatorModel {
                            tool_calls: calls_after_deltas(m0.tool_calls, ds@.take(j as int)),
                            ..m0
                        }),
                {
                    self.apply_tool_call_delta(&ds[j]);
                    proof {
                        assert(ds@.take(j + 1).drop_last() =~= ds@.take(j as int));
                    }
                }
                assert(ds@.take(n as int) =~= ds@);
            },
            None => {},
        }
        match &c.finish_reason {
            Some(f) => {
                self.finish_reason = Some(f.clone());
            },
            None => {},
        }
    }

    /// Folds one streamed chunk into the accumulator.
    pub fn apply_chunk(&mut self, chunk: &OpenAiStreamChunk)
        requires
            old(self).wf(),
        ensures
            final(self).wf(),
            final(self)@ == after_chunk(old(self)@, *chunk),
    {
        match chunk.usage {
            Some(u) => {
                self.usage = Some(u);
            },
            None => {},
        }
        let ghost m1 = self@;
        let n = chunk.choices.len();
        assert(chunk.choices@.take(0) =~= Seq::<OpenAiStreamChoice>::empty());
        for i in 0..n
            invariant
                n == chunk.choices@.len(),
                self.wf(),
                self@ == after_choices(m1, chunk.choices@.take(i as int)),
        {
            self.apply_choice(&chunk.choices[i]);
            proof {
                assert(chunk.choices@.take(i + 1).drop_last() =~= chunk.choices@.take(i as int));
            }
        }
        assert(chunk.choices@.take(n as int) =~= chunk.choices@);
    }

    /// Whether the response can be assembled for `prompt_tokens` without the usage
    /// estimate overflowing (see [`usage_fits`]).
    pub fn usage_fits(&self, prompt_tokens: u32) -> (b: bool)
        ensures
            b == usage_fits(self@, prompt_tokens),
    {
        if self.usage.is_some() {
            return true;
        }
        let ghost m = self@;
        let calls = finish_tool_calls(&self.tool_calls);
        let ghost views = crate::openai::types::tool_calls_view(calls@);
        let limit: u64 = 0xFFFF_FFFF;
        let c = estimate_tokens(self.content.as_str());
        proof {
            lemma_tool_call_tokens_prefix(views, 0);
            assert(views.take(0) =~= Seq::<ToolCallModel>::empty());
        }
        if c as u64 > limit {
            return false;
        }
        let mut total: u64 = prompt_tokens as u64 + c as u64;
        if total > limit {
            return false;
        }
        let n = calls.len();
        for i in 0..n
            invariant
                n == calls@.len(),
                views == crate::openai::types::tool_calls_view(calls@),
                views == finished_calls(m.tool_calls),
                m.usage is None,
                self@ == m,
                total <= limit,
                limit == u32::MAX,
                total == prompt_tokens + estimated_tokens(m.content) + tool_call_tokens(views.take(i as int)),
        {
            proof {
                lemma_tool_call_tokens_prefix(views, i + 1);
                assert(views.take(i + 1).drop_last() =~= views.take(i as int));
                assert(views.take(i + 1).last() == views[i as int]);
                assert(views[i as int] == calls@[i as int]@);
                assert(tool_call_tokens(views.take(i + 1)) == tool_call_tokens(views.take(i as int))
                    + estimated_tokens(views[i as int].name) + estimated_tokens(
                    views[i as int].arguments,
                ));
                assert(usage_fits(m, prompt_tokens) ==> prompt_tokens + estimated_tokens(m.content)
                    + tool_call_tokens(views.take(i + 1)) <= u32::MAX);
            }
            let a = estimate_tokens(calls[i].function.name.as_str());
            if a as u64 > limit {
                return false;
            }
            total = total + a as u64;
            if total > limit {
                return false;
            }
            let b = estimate_tokens(calls[i].function.arguments.as_str());
            if b as u64 > limit {
                return false;
            }
            total = total + b as u64;
            if total > limit {
                return false;
            }
        }
        proof {
            assert(views.take(n as int) =~= views);
        }
        true
    }

    /// Assembles the response: one choice (index 0) carrying the accumulated role,
    /// content and tool calls; usage is the streamed one or an estimate; the finish reason
    /// defaults to `tool_calls` or `stop`. A stream without content or tool calls is an
    /// error.
    pub fn into_response(self, prompt_tokens: u32) -> (r: Result<OpenAiResponse, OpenAiCompatError>)
        requires
            usage_fits(self@, prompt_tokens),
        ensures
            result_view(r) == response_of(self@, prompt_tokens),
    {
        let ghost m = self@;
        let has_content = !self.content.as_str().is_empty();
        let has_tool_calls = self.tool_calls.len() > 0;
        if !has_content && !has_tool_calls {
            return Err(
                OpenAiCompatError::ApiError(
                    200,
                    String::from_str("OpenAI stream completed without content or tool calls"),
                ),
            );
        }
        let OpenAiStreamAccumulator { role, content, tool_calls, finish_reason, usage } = self;
        let tool_calls_out = if has_tool_calls {
            Some(finish_tool_calls(&tool_calls))
        } else {
            None
        };
        let content_out = if has_content {
            Some(content)
        } else {
            None
        };
        let usage_out = match usage {
            Some(u) => u,
            None => {
                proof {
                    if !has_content {
                        assert(estimated_tokens(m.content) == 0);
                    }
                    if !has_tool_calls {
                        assert(finished_calls(m.tool_calls) =~= Seq::<ToolCallModel>::empty());
                    }
                }
                let c = match &content_out {
                    Some(c) => Some(c.as_str()),
                    None => None,
                };
                fallback_stream_usage(prompt_tokens, c, tool_calls_out.as_ref())
            },
        };
        let finish = match finish_reason {
            Some(f) => f,
            None => if tool_calls_out.is_some() {
                String::from_str("tool_calls")
            } else {
                String::from_str("stop")
            },
        };
        let role_out = match role {
            Some(r) => r,
            None => String::from_str("assistant"),
        };
        let message = OpenAiMessage {
            role: role_out,
            content: content_out,
            tool_calls: tool_calls_out,
            tool_call_id: None,
        };
        let mut choices: Vec<OpenAiChoice> = Vec::new();
        choices.push(OpenAiChoice { index: 0, message, finish_reason: finish });
        let resp = OpenAiResponse { choices, usage: usage_out };
        proof {
            let expected = response_of(m, prompt_tokens);
            assert(resp@.choices =~= expected->Ok_0.choices);
        }
        Ok(resp)
    }
}

/// The assembled response reports the finish reason the stream sent; only when none was
/// sent does it say `tool_calls` (the answer has tool calls) or `stop` (it has not). A
/// stream with content or tool calls always gives a response, and the last finish reason
/// a choice streamed is the one kept.
pub proof fn lemma_response_finish_reason(m: AccumulatorModel, prompt_tokens: u32, c: OpenAiStreamChoice)
    ensures
        m.content.len() > 0 || m.tool_calls.len() > 0 ==> {
            &&& response_of(m, prompt_tokens) is Ok
            &&& response_of(m, prompt_tokens)->Ok_0.choices.len() == 1
            &&& m.finish_reason matches Some(f) ==> response_of(m, prompt_tokens)->Ok_0.choices[0].finish_reason
                == f
            &&& m.finish_reason is None ==> response_of(m, prompt_tokens)->Ok_0.choices[0].finish_reason
                == (if m.tool_calls.len() > 0 {
                "tool_calls"@
            } else {
                "stop"@
            })
        },
        c.finish_reason matches Some(f) ==> after_choice(m, c).finish_reason == Some(f@),
        c.finish_reason is None ==> after_choice(m, c).finish_reason == m.finish_reason,
{
}

/// What the assembled response holds: one choice with index 0; the streamed role, or
/// `assistant`; the streamed text as content, or none when no text came; every tool call
/// in index order, each with its streamed id (or `call_<index>`), type (or `function`),
/// name (or empty) and concatenated arguments; and the streamed usage, or else the prompt
/// size given with the estimated completion and their sum. A stream with neither text
/// nor tool calls is an error.
pub proof fn lemma_response_contents(m: AccumulatorModel, prompt_tokens: u32)
    ensures
        m.content.len() == 0 && m.tool_calls.len() == 0 ==> response_of(m, prompt_tokens) is Err,
        m.content.len() > 0 || m.tool_calls.len() > 0 ==> {
            let r = response_of(m, prompt_tokens)->Ok_0;
            let msg = r.choices[0].message;
            &&& response_of(m, prompt_tokens) is Ok
            &&& r.choices.len() == 1
            &&& r.choices[0].index == 0
            &&& msg.role == (match m.role {
                Some(x) => x,
                None => "assistant"@,
            })
            &&& msg.content == (if m.content.len() > 0 {
                Some(m.content)
            } else {
                None
            })
            &&& msg.tool_call_id is None
            &&& (m.tool_calls.len() == 0 <==> msg.tool_calls is None)
            &&& m.tool_calls.len() > 0 ==> {
                let w = msg.tool_calls->0;
                &&& w.len() == m.tool_calls.len()
                &&& forall|j: int|
                    0 <= j < w.len() ==> {
                        let (k, e) = #[trigger] m.tool_calls[j];
                        &&& w[j].id == (match e.id {
                            Some(x) => x,
                            None => "call_"@ + decimal_text(k as nat),
                        })
                        &&& w[j].tool_type == (match e.tool_type {
                            Some(x) => x,
                            None => "function"@,
                        })
                        &&& w[j].name == (match e.name {
                            Some(x) => x,
                            None => Seq::<char>::empty(),
                        })
                        &&& w[j].arguments == e.arguments
                    }
            }
            &&& m.usage matches Some(u) ==> r.usage == u
            &&& m.usage is None && usage_fits(m, prompt_tokens) ==> {
                &&& r.usage.prompt_tokens == prompt_tokens
                &&& r.usage.total_tokens == r.usage.prompt_tokens + r.usage.completion_tokens
                &&& r.usage.completion_tokens == fallback_completion(m)
            }
        },
{
}

/// The finished form of one tool call (see [`finished_call`]).
fn finish_tool_call(k: u32, e: &ToolCallAccumulator) -> (t: OpenAiToolCall)
    ensures
        t@ == finished_call((k, e@)),
{
    let id = match &e.id {
        Some(i) => i.clone(),
        None => {
            let mut s = String::from_str("call_");
            push_decimal(&mut s, k as u64);
            s
        },
    };
    let tool_type = match &e.tool_type {
        Some(t) => t.clone(),
        None => String::from_str("function"),
    };
    let name = match &e.name {
        Some(n) => n.clone(),
        None => String::new(),
    };
    OpenAiToolCall {
        id,
        tool_type,
        function: OpenAiToolCallFunction { name, arguments: e.arguments.clone() },
    }
}

/// The finished tool calls, in index order.
fn finish_tool_calls(calls: &Vec<(u32, ToolCallAccumulator)>) -> (r: Vec<OpenAiToolCall>)
    ensures
        crate::openai::types::tool_calls_view(r@) == finished_calls(
            calls@.map_values(|e: (u32, ToolCallAccumulator)| (e.0, e.1@)),
        ),
{
    let ghost model = calls@.map_values(|e: (u32, ToolCallAccumulator)| (e.0, e.1@));
    let mut out: Vec<OpenAiToolCall> = Vec::new();
    let n = calls.len();
    for i in 0..n
        invariant
            n == calls@.len(),
            model == calls@.map_values(|e: (u32, ToolCallAccumulator)| (e.0, e.1@)),
            out@.len() == i,
            forall|j: int| 0 <= j < i ==> (#[trigger] out@[j])@ == finished_call(model[j]),
    {
        let (k, e) = &calls[i];
        let t = finish_tool_call(*k, e);
        out.push(t);
    }
    assert(crate::openai::types::tool_calls_view(out@) =~= finished_calls(model));
    out
}

proof fn lemma_tool_call_tokens_prefix(calls: Seq<ToolCallModel>, i: int)
    requires
        0 <= i <= calls.len(),
    ensures
        tool_call_tokens(calls.take(i)) <= tool_call_tokens(calls),
    decreases calls.len() - i,
{
    if i < calls.len() {
        lemma_tool_call_tokens_prefix(calls, i + 1);
        assert(calls.take(i + 1).drop_last() =~= calls.take(i));
    } else {
        assert(calls.take(i) =~= calls);
    }
}

/// Usage estimated for a stream that reported none: the prompt size given, and as
/// completion the estimated tokens of the content and of each tool call's name and
/// arguments.
pub fn fallback_stream_usage(
    prompt_tokens: u32,
    content: Option<&str>,
    tool_calls: Option<&Vec<OpenAiToolCall>>,
) -> (u: OpenAiUsage)
    requires
        prompt_tokens + (match content {
            Some(c) => estimated_tokens(c@),
            None => 0,
        }) + (match tool_calls {
            Some(v) => tool_call_tokens(crate::openai::types::tool_calls_view(v@)),
            None => 0,
        }) <= u32::MAX,
    ensures
        u == fallback_usage(
            prompt_tokens,
            (match content {
                Some(c) => estimated_tokens(c@),
                None => 0,
            }) + (match tool_calls {
                Some(v) => tool_call_tokens(crate::openai::types::tool_calls_view(v@)),
                None => 0,
            }),
        ),
{
    let content_tokens: usize = match content {
        Some(c) => estimate_tokens(c),
        None => 0,
    };
    let mut tool_tokens: usize = 0;
    match tool_calls {
        Some(v) => {
            let ghost views = crate::openai::types::tool_calls_view(v@);
            let n = v.len();
            assert(views.take(0) =~= Seq::<ToolCallModel>::empty());
            for i in 0..n
                invariant
                    n == v@.len(),
                    views == crate::openai::types::tool_calls_view(v@),
                    tool_tokens == tool_call_tokens(views.take(i as int)),
                    content_tokens + tool_call_tokens(views) <= u32::MAX,
            {
                proof {
                    lemma_tool_call_tokens_prefix(views, i + 1);
                    assert(views.take(i + 1).drop_last() =~= views.take(i as int));
                    assert(views[i as int] == v@[i as int]@);
                }
                let call = &v[i];
                tool_tokens = tool_tokens + estimate_tokens(call.function.name.as_str())
                    + estimate_tokens(call.function.arguments.as_str());
            }
            assert(views.take(n as int) =~= views);
        },
        None => {},
    }
    let completion_tokens = (content_tokens + tool_tokens) as u32;
    OpenAiUsage {
        prompt_tokens,
        completion_tokens,
        total_tokens: prompt_tokens + completion_tokens,
    }
}

} // verus!
