//! The incremental stream parser: bytes in, events out, decoded payloads folded in.
//!
//! [`OpenAiSseStreamParser::push_bytes`] takes received bytes and a decoder of data
//! payloads, and processes every complete event: `[DONE]` yields the response at once,
//! an error ends the stream, anything else is folded into the accumulated answer. What
//! it does is stated by [`run`]; [`lemma_run_extend`] and [`lemma_push_split`] show that
//! later bytes never change an ended stream and that how the bytes are cut into chunks
//! does not matter. A stream that ends without `[DONE]` is completed with
//! [`OpenAiSseStreamParser::finish`]. The single steps are also available:
//! [`OpenAiSseStreamParser::feed_bytes`], [`OpenAiSseStreamParser::next_step`] and
//! [`OpenAiSseStreamParser::apply_payload`].

use vstd::prelude::*;
use vstd::utf8::{decode_utf8, valid_utf8};
use crate::openai::accumulate::{
    after_chunk, empty_accumulator, response_of, result_view, stream_error_model,
    stream_error_to_openai_error, usage_fits, AccumulatorModel, OpenAiStreamAccumulator,
    StreamPayload,
};
use crate::openai::stream::{
    drain_next_sse_event, event_boundary, event_data, lemma_event_boundary_in_range,
    lemma_event_boundary_stable, sse_event_data,
};
use crate::openai::types::{ErrorModel, OpenAiCompatError, OpenAiResponse, ResponseModel};
use crate::text::{has_prefix, trim, trimmed};

verus! {

#[verifier::external_type_specification]
#[verifier::external_body]
pub struct ExFromUtf8Error(std::string::FromUtf8Error);

/// Trusted: `String::from_utf8` succeeds exactly when `bytes` is well-formed UTF-8, and
/// then holds the characters the bytes encode, as std documents; the error it returns
/// otherwise is carried through unread.
#[verifier::external_body]
fn string_from_utf8(bytes: Vec<u8>) -> (r: Result<String, std::string::FromUtf8Error>)
    ensures
        match r {
            Ok(s) => valid_utf8(bytes@) && s@ == decode_utf8(bytes@),
            Err(_) => !valid_utf8(bytes@),
        },
{
    String::from_utf8(bytes)
}

/// What one call of [`OpenAiSseStreamParser::next_step`] found.
pub enum SseStep {
    /// No complete event is buffered.
    NeedMore,
    /// An event without data (only comments or other fields) was consumed.
    Skipped,
    /// An event's data payload, to be decoded and passed to `apply_payload`.
    Data(String),
    /// `[DONE]` arrived: the assembled response (or the error for an empty stream).
    Done(Result<OpenAiResponse, OpenAiCompatError>),
    /// An event was not valid UTF-8.
    Failed(OpenAiCompatError),
    /// `[DONE]` arrived but the usage estimate would overflow `u32` (the event is
    /// consumed, the accumulated answer kept).
    Overflow,
}

/// Model of the parser: unconsumed bytes and accumulated chunks.
pub struct ParserModel {
    pub buffer: Seq<u8>,
    pub accumulator: AccumulatorModel,
}

/// The `[DONE]` marker.
pub open spec fn done_marker() -> Seq<char> {
    "[DONE]"@
}

/// What processing the buffered events led to.
pub enum PushOutcome {
    /// Every complete event was processed; more bytes are needed.
    Pending,
    /// `[DONE]` arrived: the assembled response, or the error for an empty stream.
    Finished(Result<ResponseModel, ErrorModel>),
    /// A payload was an in-stream error, or could not be decoded.
    Failed(ErrorModel),
    /// An event was not valid UTF-8.
    Utf8Failed,
    /// `[DONE]` arrived but the usage estimate would overflow `u32`.
    Overflow,
}

/// What `decode` gives for the data text `d`.
pub open spec fn decoded<F: Fn(String) -> StreamPayload>(decode: F, d: Seq<char>) -> StreamPayload {
    let (s, p): (String, StreamPayload) = choose|s: String, p: StreamPayload|
        s@ == d && #[trigger] call_ensures(decode, (s,), p);
    p
}

/// The payload of each data text, as `decode` gives it.
pub open spec fn decoding<F: Fn(String) -> StreamPayload>(decode: F) -> spec_fn(Seq<char>) -> StreamPayload {
    |d: Seq<char>| decoded(decode, d)
}

/// `decode` accepts every text and gives the same payload for the same text.
pub open spec fn decoder_ok<F: Fn(String) -> StreamPayload>(decode: F) -> bool {
    &&& forall|s: String| #[trigger] call_requires(decode, (s,))
    &&& forall|s1: String, s2: String, p1: StreamPayload, p2: StreamPayload|
        s1@ == s2@ && #[trigger] call_ensures(decode, (s1,), p1) && #[trigger] call_ensures(
            decode,
            (s2,),
            p2,
        ) ==> p1 == p2
}

/// Processing the events of `buf` from the accumulated answer `acc`, with `dec` giving
/// the payload of each data text: the unconsumed bytes, the accumulated answer, and how
/// it ended. Events without data are skipped; chunks are folded in; `[DONE]`, an error,
/// or an undecodable event stops the processing at once.
pub open spec fn run(
    buf: Seq<u8>,
    acc: AccumulatorModel,
    prompt_tokens: u32,
    dec: spec_fn(Seq<char>) -> StreamPayload,
) -> (Seq<u8>, AccumulatorModel, PushOutcome)
    decreases buf.len(),
{
    match event_boundary(buf) {
        None => (buf, acc, PushOutcome::Pending),
        Some((s, e)) => {
            proof {
                lemma_event_boundary_in_range(buf);
            }
            let rest = buf.subrange(e, buf.len() as int);
            let ev = buf.subrange(0, s);
            if !valid_utf8(ev) {
                (rest, acc, PushOutcome::Utf8Failed)
            } else {
                match event_data(decode_utf8(ev)) {
                    None => run(rest, acc, prompt_tokens, dec),
                    Some(d) => if trimmed(d) == done_marker() {
                        if usage_fits(acc, prompt_tokens) {
                            (
                                rest,
                                empty_accumulator(),
                                PushOutcome::Finished(response_of(acc, prompt_tokens)),
                            )
                        } else {
                            (rest, acc, PushOutcome::Overflow)
                        }
                    } else {
                        match dec(d) {
                            StreamPayload::Error(body) => (
                                rest,
                                acc,
                                PushOutcome::Failed(stream_error_model(body)),
                            ),
                            StreamPayload::Malformed(m) => (
                                rest,
                                acc,
                                PushOutcome::Failed(
                                    ErrorModel::ApiError(200, "Streaming parse error: "@ + m@),
                                ),
                            ),
                            StreamPayload::Chunk(c) => run(
                                rest,
                                after_chunk(acc, c),
                                prompt_tokens,
                                dec,
                            ),
                        }
                    }
                }
            }
        },
    }
}

/// The result `r` of a push (`None` for an overflowing usage estimate) reports `o`.
pub open spec fn reports(o: PushOutcome, r: Option<Result<Option<OpenAiResponse>, OpenAiCompatError>>) -> bool {
    match o {
        PushOutcome::Pending => r matches Some(Ok(None)),
        PushOutcome::Finished(Ok(m)) => r matches Some(Ok(Some(x))) && x@ == m,
        PushOutcome::Finished(Err(em)) => r matches Some(Err(e)) && e@ == em,
        PushOutcome::Failed(em) => r matches Some(Err(e)) && e@ == em,
        PushOutcome::Utf8Failed => r matches Some(Err(e)) && e@ matches ErrorModel::ApiError(
            status,
            msg,
        ) && status == 200 && has_prefix(msg, "Streaming UTF-8 decode error: "@),
        PushOutcome::Overflow => r is None,
    }
}

/// Bytes that follow never change what the events already buffered lead to: a stream
/// that ended (`[DONE]`, an error) ends the same way, with the later bytes left unread,
/// and one still pending goes on from where it stopped.
pub proof fn lemma_run_extend(
    buf: Seq<u8>,
    more: Seq<u8>,
    acc: AccumulatorModel,
    prompt_tokens: u32,
    dec: spec_fn(Seq<char>) -> StreamPayload,
)
    ensures
        run(buf + more, acc, prompt_tokens, dec) == (match run(buf, acc, prompt_tokens, dec) {
            (b, a, PushOutcome::Pending) => run(b + more, a, prompt_tokens, dec),
            (b, a, o) => (b + more, a, o),
        }),
    decreases buf.len(),
{
    let t = buf + more;
    match event_boundary(buf) {
        None => {},
        Some((s, e)) => {
            lemma_event_boundary_in_range(buf);
            lemma_event_boundary_stable(buf, more);
            let rest = buf.subrange(e, buf.len() as int);
            assert(t.subrange(0, s) =~= buf.subrange(0, s));
            assert(t.subrange(e, t.len() as int) =~= rest + more);
            lemma_run_extend(rest, more, acc, prompt_tokens, dec);
            let ev = buf.subrange(0, s);
            if valid_utf8(ev) {
                if let Some(d) = event_data(decode_utf8(ev)) {
                    if trimmed(d) != done_marker() {
                        if let StreamPayload::Chunk(c) = dec(d) {
                            lemma_run_extend(rest, more, after_chunk(acc, c), prompt_tokens, dec);
                        }
                    }
                }
            }
        },
    }
}

/// Pushing `x` and then `y` does what pushing `x + y` at once does: when the push of `x`
/// is still pending, the push of `y` ends exactly as the single push would (same bytes
/// left, same answer, same outcome); when it already ended, the single push ends the
/// same way.
pub proof fn lemma_push_split(
    buf: Seq<u8>,
    acc: AccumulatorModel,
    x: Seq<u8>,
    y: Seq<u8>,
    prompt_tokens: u32,
    dec: spec_fn(Seq<char>) -> StreamPayload,
)
    ensures
        ({
            let (b1, a1, o1) = run(buf + x, acc, prompt_tokens, dec);
            let whole = run(buf + (x + y), acc, prompt_tokens, dec);
            &&& o1 is Pending ==> run(b1 + y, a1, prompt_tokens, dec) == whole
            &&& !(o1 is Pending) ==> whole.1 == a1 && whole.2 == o1
        }),
{
    assert(buf + (x + y) =~= (buf + x) + y);
    lemma_run_extend(buf + x, y, acc, prompt_tokens, dec);
}

/// Incremental parser of a streamed chat completion.
pub struct OpenAiSseStreamParser {
    buffer: Vec<u8>,
    accumulator: OpenAiStreamAccumulator,
}

impl View for OpenAiSseStreamParser {
    type V = ParserModel;

    closed spec fn view(&self) -> ParserModel {
        ParserModel { buffer: self.buffer@, accumulator: self.accumulator@ }
    }
}

impl OpenAiSseStreamParser {
    /// Invariant of the accumulated tool calls.
    pub closed spec fn wf(&self) -> bool {
        self.accumulator.wf()
    }

    /// A parser that has received nothing.
    pub fn new() -> (p: Self)
        ensures
            p.wf(),
            p@.buffer == Seq::<u8>::empty(),
            p@.accumulator == empty_accumulator(),
    {
        OpenAiSseStreamParser { buffer: Vec::new(), accumulator: OpenAiStreamAccumulator::new() }
    }

    /// Whether `[DONE]`, or the end of the stream, can be answered for `prompt_tokens`
    /// without the usage estimate overflowing (see [`usage_fits`]).
    pub fn usage_fits(&self, prompt_tokens: u32) -> (b: bool)
        ensures
            b == usage_fits(self@.accumulator, prompt_tokens),
    {
        self.accumulator.usage_fits(prompt_tokens)
    }

    /// Appends received bytes to the buffer.
    pub fn feed_bytes(&mut self, bytes: &[u8])
        requires
            old(self).wf(),
        ensures
            final(self).wf(),
            final(self)@.buffer == old(self)@.buffer + bytes@,
            final(self)@.accumulator == old(self)@.accumulator,
    {
        let n = bytes.len();
        let ghost b0 = self.buffer@;
        for i in 0..n
            invariant
                n == bytes@.len(),
                self.wf(),
                self.buffer@ == b0 + bytes@.take(i as int),
                self@.accumulator == old(self)@.accumulator,
        {
            self.buffer.push(bytes[i]);
            proof {
                assert(self.buffer@ =~= b0 + bytes@.take(i + 1));
            }
        }
        assert(bytes@.take(n as int) =~= bytes@);
    }

    /// Consumes the next complete event, if any, and reports what it was. On `[DONE]`
    /// the accumulated response is returned and the accumulator starts afresh.
    pub fn next_step(&mut self, prompt_tokens: u32) -> (r: SseStep)
        requires
            old(self).wf(),
        ensures
            final(self).wf(),
            match event_boundary(old(self)@.buffer) {
                None => r is NeedMore && final(self)@ == old(self)@,
                Some((s, e)) => {
                    let ev = old(self)@.buffer.subrange(0, s);
                    &&& final(self)@.buffer == old(self)@.buffer.subrange(
                        e,
                        old(self)@.buffer.len() as int,
                    )
                    &&& if !valid_utf8(ev) {
                        &&& r matches SseStep::Failed(err) && err@ matches ErrorModel::ApiError(
                            status,
                            msg,
                        ) && status == 200 && has_prefix(msg, "Streaming UTF-8 decode error: "@)
                        &&& final(self)@.accumulator == old(self)@.accumulator
                    } else {
                        match event_data(decode_utf8(ev)) {
                            None => r is Skipped && final(self)@.accumulator == old(
                                self,
                            )@.accumulator,
                            Some(d) => if trimmed(d) == done_marker() {
                                if usage_fits(old(self)@.accumulator, prompt_tokens) {
                                    &&& r matches SseStep::Done(res) && result_view(res)
                                        == response_of(old(self)@.accumulator, prompt_tokens)
                                    &&& final(self)@.accumulator == empty_accumulator()
                                } else {
                                    &&& r is Overflow
                                    &&& final(self)@.accumulator == old(self)@.accumulator
                                }
                            } else {
                                &&& r matches SseStep::Data(x) && x@ == d
                                &&& final(self)@.accumulator == old(self)@.accumulator
                            },
                        }
                    }
                },
            },
    {
        let event = match drain_next_sse_event(&mut self.buffer) {
            None => return SseStep::NeedMore,
            Some(ev) => ev,
        };
        let text = match string_from_utf8(event) {
            Err(e) => {
                let mut msg = String::from_str("Streaming UTF-8 decode error: ");
                let detail = e.to_string();
                msg.append(detail.as_str());
                proof {
                    let p = "Streaming UTF-8 decode error: "@;
                    assert(msg@.subrange(0, p.len() as int) =~= p);
                }
                return SseStep::Failed(OpenAiCompatError::ApiError(200, msg));
            },
            Ok(t) => t,
        };
        match sse_event_data(text.as_str()) {
            None => SseStep::Skipped,
            Some(data) => {
                let t = trim(data.as_str());
                if t == String::from_str("[DONE]") {
                    if !self.accumulator.usage_fits(prompt_tokens) {
                        return SseStep::Overflow;
                    }
                    let mut acc = OpenAiStreamAccumulator::new();
                    std::mem::swap(&mut acc, &mut self.accumulator);
                    SseStep::Done(acc.into_response(prompt_tokens))
                } else {
                    SseStep::Data(data)
                }
            },
        }
    }

    /// Folds one decoded payload into the accumulator. An in-stream error object or an
    /// undecodable payload ends the stream with the corresponding error.
    pub fn apply_payload(&mut self, payload: &StreamPayload) -> (r: Result<(), OpenAiCompatError>)
        requires
            old(self).wf(),
        ensures
            final(self).wf(),
            final(self)@.buffer == old(self)@.buffer,
            match *payload {
                StreamPayload::Error(body) => r matches Err(e) && e@ == stream_error_model(body)
                    && final(self)@.accumulator == old(self)@.accumulator,
                StreamPayload::Malformed(m) => r matches Err(e) && e@ == ErrorModel::ApiError(
                    200,
                    "Streaming parse error: "@ + m@,
                ) && final(self)@.accumulator == old(self)@.accumulator,
                StreamPayload::Chunk(c) => r is Ok && final(self)@.accumulator == after_chunk(
                    old(self)@.accumulator,
                    c,
                ),
            },
    {
        match payload {
            StreamPayload::Error(body) => Err(stream_error_to_openai_error(body)),
            StreamPayload::Malformed(m) => {
                let mut msg = String::from_str("Streaming parse error: ");
                msg.append(m.as_str());
                Err(OpenAiCompatError::ApiError(200, msg))
            },
            StreamPayload::Chunk(c) => {
                self.accumulator.apply_chunk(c);
                Ok(())
            },
        }
    }

    /// Appends `bytes` and processes every complete event (see [`run`]), decoding each
    /// data payload with `decode`; `None` where the usage estimate for `[DONE]` would
    /// overflow `u32`. A stream that ended leaves the bytes after its last event unread.
    pub fn push_bytes_checked<F: Fn(String) -> StreamPayload>(
        &mut self,
        bytes: &[u8],
        prompt_tokens: u32,
        decode: F,
    ) -> (r: Option<Result<Option<OpenAiResponse>, OpenAiCompatError>>)
        requires
            old(self).wf(),
            decoder_ok(decode),
        ensures
            final(self).wf(),
            ({
                let (b, a, o) = run(
                    old(self)@.buffer + bytes@,
                    old(self)@.accumulator,
                    prompt_tokens,
                    decoding(decode),
                );
                &&& final(self)@.buffer == b
                &&& final(self)@.accumulator == a
                &&& reports(o, r)
            }),
    {
        let ghost dec = decoding(decode);
        self.feed_bytes(bytes);
        let ghost target = run(old(self)@.buffer + bytes@, old(self)@.accumulator, prompt_tokens, dec);
        loop
            invariant
                self.wf(),
                decoder_ok(decode),
                dec == decoding(decode),
                target == run(old(self)@.buffer + bytes@, old(self)@.accumulator, prompt_tokens, dec),
                run(self@.buffer, self@.accumulator, prompt_tokens, dec) == target,
            decreases self@.buffer.len(),
        {
            let ghost before = self@;
            proof {
                lemma_event_boundary_in_range(before.buffer);
            }
            match self.next_step(prompt_tokens) {
                SseStep::NeedMore => {
                    return Some(Ok(None));
                },
                SseStep::Skipped => {},
                SseStep::Data(data) => {
                    let ghost dv = data@;
                    let ghost ds = data;
                    let payload = decode(data);
                    proof {
                        assert(ds@ == dv && call_ensures(decode, (ds,), payload));
                        let (w, q): (String, StreamPayload) = choose|s: String, p: StreamPayload|
                            s@ == dv && #[trigger] call_ensures(decode, (s,), p);
                        assert(q == decoded(decode, dv));
                        assert(payload == q);
                    }
                    match self.apply_payload(&payload) {
                        Ok(()) => {},
                        Err(e) => {
                            return Some(Err(e));
                        },
                    }
                },
                SseStep::Done(res) => {
                    return Some(
                        match res {
                            Ok(x) => Ok(Some(x)),
                            Err(e) => Err(e),
                        },
                    );
                },
                SseStep::Failed(e) => {
                    return Some(Err(e));
                },
                SseStep::Overflow => {
                    return None;
                },
            }
        }
    }

    /// Appends `bytes` and processes every complete event (see [`run`]): `Ok(None)` while
    /// more bytes are needed, the response once `[DONE]` arrives, the error that ended
    /// the stream otherwise.
    pub fn push_bytes<F: Fn(String) -> StreamPayload>(
        &mut self,
        bytes: &[u8],
        prompt_tokens: u32,
        decode: F,
    ) -> (r: Result<Option<OpenAiResponse>, OpenAiCompatError>)
        requires
            old(self).wf(),
            decoder_ok(decode),
            !(run(
                old(self)@.buffer + bytes@,
                old(self)@.accumulator,
                prompt_tokens,
                decoding(decode),
            ).2 is Overflow),
        ensures
            final(self).wf(),
            ({
                let (b, a, o) = run(
                    old(self)@.buffer + bytes@,
                    old(self)@.accumulator,
                    prompt_tokens,
                    decoding(decode),
                );
                &&& final(self)@.buffer == b
                &&& final(self)@.accumulator == a
                &&& reports(o, Some(r))
            }),
    {
        match self.push_bytes_checked(bytes, prompt_tokens, decode) {
            Some(r) => r,
            None => Ok(None),
        }
    }

    /// Completes a stream that ended without `[DONE]`.
    pub fn finish(self, prompt_tokens: u32) -> (r: Result<OpenAiResponse, OpenAiCompatError>)
        requires
            usage_fits(self@.accumulator, prompt_tokens),
        ensures
            result_view(r) == response_of(self@.accumulator, prompt_tokens),
    {
        self.accumulator.into_response(prompt_tokens)
    }
}

} // verus!
