use sashiko::openai::accumulate::{
    OpenAiDelta, OpenAiStreamChoice, OpenAiStreamChunk, OpenAiStreamErrorBody,
    OpenAiToolCallDelta, OpenAiToolCallFunctionDelta, StreamPayload,
};
use sashiko::openai::parser::{OpenAiSseStreamParser, SseStep};
use sashiko::openai::stream::{drain_next_sse_event, find_sse_delimiter, sse_event_data};
use sashiko::openai::types::{OpenAiCompatError, OpenAiResponse, OpenAiUsage, RetryAfter};
use serde_json::Value;

fn opt_str(v: &Value, key: &str) -> Option<String> {
    v.get(key).and_then(|x| x.as_str()).map(|s| s.to_string())
}

fn decode_tool_call(v: &Value) -> OpenAiToolCallDelta {
    OpenAiToolCallDelta {
        index: v["index"].as_u64().unwrap() as u32,
        id: opt_str(v, "id"),
        tool_type: opt_str(v, "type"),
        function: v.get("function").map(|f| OpenAiToolCallFunctionDelta {
            name: opt_str(f, "name"),
            arguments: opt_str(f, "arguments"),
        }),
    }
}

/// Decodes one data payload the way the stream client does.
fn decode(data: &str) -> StreamPayload {
    let v: Value = match serde_json::from_str(data) {
        Ok(v) => v,
        Err(e) => return StreamPayload::Malformed(e.to_string()),
    };
    if let Some(err) = v.get("error") {
        return StreamPayload::Error(OpenAiStreamErrorBody {
            message: opt_str(err, "message"),
            error_type: opt_str(err, "type"),
            code: err.get("code").map(|c| c.to_string()),
        });
    }
    let choices = v
        .get("choices")
        .and_then(|c| c.as_array())
        .map(|cs| {
            cs.iter()
                .map(|c| OpenAiStreamChoice {
                    index: c["index"].as_u64().unwrap() as u32,
                    delta: OpenAiDelta {
                        role: opt_str(&c["delta"], "role"),
                        content: opt_str(&c["delta"], "content"),
                        tool_calls: c["delta"]
                            .get("tool_calls")
                            .and_then(|t| t.as_array())
                            .map(|ts| ts.iter().map(decode_tool_call).collect()),
                    },
                    finish_reason: opt_str(c, "finish_reason"),
                })
                .collect()
        })
        .unwrap_or_default();
    let usage = v.get("usage").filter(|u| !u.is_null()).map(|u| OpenAiUsage {
        prompt_tokens: u["prompt_tokens"].as_u64().unwrap() as u32,
        completion_tokens: u["completion_tokens"].as_u64().unwrap() as u32,
        total_tokens: u["total_tokens"].as_u64().unwrap() as u32,
    });
    StreamPayload::Chunk(OpenAiStreamChunk { choices, usage })
}

/// Feeds bytes to the parser, decoding payloads the way the stream client does.
fn push_bytes(
    parser: &mut OpenAiSseStreamParser,
    bytes: &[u8],
    prompt_tokens: u32,
) -> Result<Option<OpenAiResponse>, OpenAiCompatError> {
    parser.push_bytes(bytes, prompt_tokens, |d: String| decode(&d))
}

fn parse_openai_sse_events(raw: &str, prompt_tokens: u32) -> Result<OpenAiResponse, OpenAiCompatError> {
    let mut parser = OpenAiSseStreamParser::new();
    if let Some(response) = push_bytes(&mut parser, raw.as_bytes(), prompt_tokens)? {
        return Ok(response);
    }
    parser.finish(prompt_tokens)
}

#[test]
fn test_parse_openai_sse_events_accumulates_content_and_usage_fallback() {
    let raw = [
        "data: {\"choices\":[{\"index\":0,\"delta\":{\"role\":\"assistant\"},\"finish_reason\":null}]}\n\n",
        "data: {\"choices\":[{\"index\":0,\"delta\":{\"content\":\"Hello\"},\"finish_reason\":null}]}\n\n",
        "data: {\"choices\":[{\"index\":0,\"delta\":{\"content\":\" world\"},\"finish_reason\":null}]}\n\n",
        "data: [DONE]\n\n"
    ]
    .concat();
    let response = parse_openai_sse_events(&raw, 12).unwrap();
    assert_eq!(response.choices.len(), 1);
    assert_eq!(response.choices[0].message.content.as_deref(), Some("Hello world"));
    assert_eq!(response.choices[0].finish_reason, "stop");
    assert_eq!(response.usage.prompt_tokens, 12);
    assert!(response.usage.completion_tokens > 0);
    assert_eq!(
        response.usage.total_tokens,
        response.usage.prompt_tokens + response.usage.completion_tokens
    );
}

#[test]
fn test_parse_openai_sse_events_uses_stream_usage() {
    let raw = [
        "data: {\"choices\":[{\"index\":0,\"delta\":{\"content\":\"Hi\"},\"finish_reason\":\"stop\"}]}\n\n",
        "data: {\"choices\":[],\"usage\":{\"prompt_tokens\":7,\"completion_tokens\":3,\"total_tokens\":10}}\n\n",
        "data: [DONE]\n\n"
    ]
    .concat();
    let response = parse_openai_sse_events(&raw, 99).unwrap();
    assert_eq!(response.usage.prompt_tokens, 7);
    assert_eq!(response.usage.completion_tokens, 3);
    assert_eq!(response.usage.total_tokens, 10);
}

#[test]
fn test_parse_openai_sse_events_accumulates_tool_call_deltas() {
    let raw = [
        "data: {\"choices\":[{\"index\":0,\"delta\":{\"tool_calls\":[{\"index\":0,\"id\":\"call_x\",\"type\":\"function\",\"function\":{\"name\":\"git_log\",\"arguments\":\"{\\\"\"}}]},\"finish_reason\":null}]}\n\n",
        "data: {\"choices\":[{\"index\":0,\"delta\":{\"tool_calls\":[{\"index\":0,\"function\":{\"arguments\":\"limit\\\":10}\"}}]},\"finish_reason\":\"tool_calls\"}]}\n\n",
        "data: [DONE]\n\n"
    ]
    .concat();
    let response = parse_openai_sse_events(&raw, 5).unwrap();
    let tool_calls = response.choices[0].message.tool_calls.as_ref().unwrap();
    assert_eq!(tool_calls.len(), 1);
    assert_eq!(tool_calls[0].id, "call_x");
    assert_eq!(tool_calls[0].tool_type, "function");
    assert_eq!(tool_calls[0].function.name, "git_log");
    assert_eq!(tool_calls[0].function.arguments, r#"{"limit":10}"#);
    assert_eq!(response.choices[0].finish_reason, "tool_calls");
}

#[test]
fn test_parse_openai_sse_events_returns_error_for_stream_error() {
    let raw = "data: {\"error\":{\"message\":\"stream blocked\",\"type\":\"server_error\",\"code\":\"bad_gateway\"}}\n\n";
    let result = parse_openai_sse_events(&raw, 5);
    assert!(matches!(
        result,
        Err(OpenAiCompatError::TransientError(_, message)) if message.contains("stream blocked")
    ));
}

#[test]
fn test_stream_parser_returns_response_when_done_arrives() {
    let raw = [
        "data: {\"choices\":[{\"index\":0,\"delta\":{\"content\":\"done\"},\"finish_reason\":\"stop\"}]}\n\n",
        "data: [DONE]\n\n",
        "data: {\"choices\":[{\"index\":0,\"delta\":{\"content\":\"ignored\"},\"finish_reason\":null}]}\n\n"
    ]
    .concat();
    let mut parser = OpenAiSseStreamParser::new();
    let response = parser
        .push_bytes(raw.as_bytes(), 3, |d: String| decode(&d))
        .unwrap()
        .unwrap();
    assert_eq!(response.choices[0].message.content.as_deref(), Some("done"));
}

#[test]
fn test_stream_parser_preserves_utf8_split_across_chunks() {
    let event = "data: {\"choices\":[{\"index\":0,\"delta\":{\"content\":\"café\"},\"finish_reason\":\"stop\"}]}\n\n";
    let split_at = event
        .as_bytes()
        .windows(2)
        .position(|window| window == "é".as_bytes())
        .unwrap()
        + 1;
    let mut parser = OpenAiSseStreamParser::new();
    assert!(parser
        .push_bytes(&event.as_bytes()[..split_at], 3, |d: String| decode(&d))
        .unwrap()
        .is_none());
    let done = "data: [DONE]\n\n";
    let second = [&event.as_bytes()[split_at..], done.as_bytes()].concat();
    let response = parser.push_bytes(&second, 3, |d: String| decode(&d)).unwrap().unwrap();
    assert_eq!(response.choices[0].message.content.as_deref(), Some("café"));
}

#[test]
fn delimiter_is_the_earliest_blank_line() {
    let d = find_sse_delimiter(b"a\r\n\r\nb\n\nc").unwrap();
    assert_eq!((d.start, d.end), (1, 5));
    let d = find_sse_delimiter(b"ab\n\nc\r\n\r\n").unwrap();
    assert_eq!((d.start, d.end), (2, 4));
    assert!(find_sse_delimiter(b"no delimiter\n").is_none());
    let mut buf = b"first\n\nsecond".to_vec();
    assert_eq!(drain_next_sse_event(&mut buf), Some(b"first".to_vec()));
    assert_eq!(buf, b"second".to_vec());
    assert_eq!(drain_next_sse_event(&mut buf), None);
    assert_eq!(buf, b"second".to_vec());
}

#[test]
fn event_data_joins_data_lines_and_skips_others() {
    assert_eq!(
        sse_event_data(": comment\nevent: x\ndata: a\r\ndata:b\ndata:  c"),
        Some("a\nb\n c".to_string())
    );
    assert_eq!(sse_event_data("event: ping\n:keepalive"), None);
    assert_eq!(sse_event_data(""), None);
    assert_eq!(sse_event_data("data:"), Some(String::new()));
}

#[test]
fn invalid_utf8_event_fails_with_decode_error() {
    let mut parser = OpenAiSseStreamParser::new();
    parser.feed_bytes(b"data: \xff\xfe\n\n");
    match parser.next_step(1) {
        SseStep::Failed(OpenAiCompatError::ApiError(200, m)) => {
            assert!(m.starts_with("Streaming UTF-8 decode error: "));
            assert!(m.len() > "Streaming UTF-8 decode error: ".len());
        }
        _ => panic!("expected a decode failure"),
    }
}

#[test]
fn malformed_payload_is_a_parse_error() {
    let mut parser = OpenAiSseStreamParser::new();
    let r = parser.apply_payload(&StreamPayload::Malformed("expected value".to_string()));
    match r {
        Err(OpenAiCompatError::ApiError(200, m)) => assert_eq!(m, "Streaming parse error: expected value"),
        _ => panic!("expected a parse error"),
    }
}

#[test]
fn empty_stream_is_an_error() {
    let parser = OpenAiSseStreamParser::new();
    match parser.finish(4) {
        Err(OpenAiCompatError::ApiError(200, m)) => {
            assert_eq!(m, "OpenAI stream completed without content or tool calls")
        }
        _ => panic!("expected an error"),
    }
    let r = parse_openai_sse_events("data: [DONE]\n\n", 4);
    assert!(matches!(r, Err(OpenAiCompatError::ApiError(200, _))));
}

#[test]
fn stream_without_done_is_finished() {
    let r = parse_openai_sse_events(
        "data: {\"choices\":[{\"index\":0,\"delta\":{\"content\":\"12345678\"},\"finish_reason\":null}]}\n\n",
        10,
    )
    .unwrap();
    assert_eq!(r.choices[0].message.role, "assistant");
    assert_eq!(r.usage.completion_tokens, 2);
    assert_eq!(r.usage.total_tokens, 12);
}

#[test]
fn tool_calls_are_ordered_by_index_with_defaults() {
    let raw = [
        "data: {\"choices\":[{\"index\":0,\"delta\":{\"tool_calls\":[{\"index\":3,\"function\":{\"name\":\"b\",\"arguments\":\"{}\"}}]},\"finish_reason\":null}]}\n\n",
        "data: {\"choices\":[{\"index\":0,\"delta\":{\"tool_calls\":[{\"index\":1,\"id\":\"first\",\"function\":{\"name\":\"a\"}}]},\"finish_reason\":null}]}\n\n",
        "data: {\"choices\":[{\"index\":0,\"delta\":{\"tool_calls\":[{\"index\":1,\"id\":\"second\",\"function\":{\"name\":\"z\",\"arguments\":\"[1]\"}}]},\"finish_reason\":null}]}\n\n",
        "data: [DONE]\n\n"
    ]
    .concat();
    let r = parse_openai_sse_events(&raw, 0).unwrap();
    let calls = r.choices[0].message.tool_calls.as_ref().unwrap();
    assert_eq!(calls.len(), 2);
    assert_eq!(calls[0].id, "first");
    assert_eq!(calls[0].function.name, "a");
    assert_eq!(calls[0].function.arguments, "[1]");
    assert_eq!(calls[1].id, "call_3");
    assert_eq!(calls[1].tool_type, "function");
    assert_eq!(calls[1].function.name, "b");
    assert_eq!(r.choices[0].finish_reason, "tool_calls");
    assert!(r.choices[0].message.content.is_none());
}

#[test]
fn stream_errors_are_classified() {
    let mut parser = OpenAiSseStreamParser::new();
    let rate = StreamPayload::Error(OpenAiStreamErrorBody {
        message: None,
        error_type: Some("rate_limit_exceeded".to_string()),
        code: None,
    });
    assert!(matches!(
        parser.apply_payload(&rate),
        Err(OpenAiCompatError::RateLimitExceeded(RetryAfter { secs: 60, nanos: 0 }))
    ));
    let other = StreamPayload::Error(OpenAiStreamErrorBody {
        message: None,
        error_type: Some("invalid_request".to_string()),
        code: Some("42".to_string()),
    });
    match parser.apply_payload(&other) {
        Err(OpenAiCompatError::ApiError(200, m)) => {
            assert_eq!(m, "OpenAI stream returned an error (42)")
        }
        _ => panic!("expected an API error"),
    }
    let code_429 = StreamPayload::Error(OpenAiStreamErrorBody {
        message: Some("slow down".to_string()),
        error_type: None,
        code: Some("429".to_string()),
    });
    assert!(matches!(
        parser.apply_payload(&code_429),
        Err(OpenAiCompatError::RateLimitExceeded(_))
    ));
    let overload = StreamPayload::Error(OpenAiStreamErrorBody {
        message: Some("busy".to_string()),
        error_type: Some("overloaded".to_string()),
        code: None,
    });
    match parser.apply_payload(&overload) {
        Err(OpenAiCompatError::TransientError(RetryAfter { secs: 30, nanos: 0 }, m)) => {
            assert_eq!(m, "busy")
        }
        _ => panic!("expected a transient error"),
    }
}

#[test]
fn usage_estimate_overflow_is_detected() {
    let mut parser = OpenAiSseStreamParser::new();
    assert!(parser.usage_fits(u32::MAX));
    parser
        .apply_payload(&decode(
            "{\"choices\":[{\"index\":0,\"delta\":{\"content\":\"12345678\"},\"finish_reason\":null}]}",
        ))
        .unwrap();
    assert!(parser.usage_fits(u32::MAX - 2));
    assert!(!parser.usage_fits(u32::MAX - 1));
    parser
        .apply_payload(&decode(
            "{\"choices\":[],\"usage\":{\"prompt_tokens\":1,\"completion_tokens\":2,\"total_tokens\":3}}",
        ))
        .unwrap();
    assert!(parser.usage_fits(u32::MAX));
}

#[test]
fn events_do_not_depend_on_chunking() {
    let raw = "data: {\"choices\":[{\"index\":0,\"delta\":{\"content\":\"ab\"},\"finish_reason\":\"stop\"}]}\r\n\r\ndata: [DONE]\n\n";
    let whole = parse_openai_sse_events(raw, 1).unwrap();
    for cut in 1..raw.len() {
        let mut parser = OpenAiSseStreamParser::new();
        let first = push_bytes(&mut parser, &raw.as_bytes()[..cut], 1).unwrap();
        let response = match first {
            Some(r) => r,
            None => push_bytes(&mut parser, &raw.as_bytes()[cut..], 1).unwrap().unwrap(),
        };
        assert_eq!(response.choices[0].message.content, whole.choices[0].message.content);
        assert_eq!(response.usage, whole.usage);
    }
}

#[test]
fn overflowing_usage_estimate_is_reported() {
    let raw = "data: {\"choices\":[{\"index\":0,\"delta\":{\"content\":\"12345678\"},\"finish_reason\":null}]}\n\ndata: [DONE]\n\n";
    let mut parser = OpenAiSseStreamParser::new();
    assert!(parser
        .push_bytes_checked(raw.as_bytes(), u32::MAX - 1, |d: String| decode(&d))
        .is_none());
    let mut fits = OpenAiSseStreamParser::new();
    let done = fits
        .push_bytes_checked(raw.as_bytes(), u32::MAX - 2, |d: String| decode(&d))
        .unwrap()
        .unwrap()
        .unwrap();
    assert_eq!(done.usage.total_tokens, u32::MAX);
}

#[test]
fn bytes_after_done_are_left_unread() {
    let raw = "data: {\"choices\":[{\"index\":0,\"delta\":{\"content\":\"a\"},\"finish_reason\":\"stop\"}]}\n\ndata: [DONE]\n\ndata: {\"choices\":[{\"index\":0,\"delta\":{\"content\":\"b\"},\"finish_reason\":\"stop\"}]}\n\ndata: [DONE]\n\n";
    let mut parser = OpenAiSseStreamParser::new();
    let first = push_bytes(&mut parser, raw.as_bytes(), 0).unwrap().unwrap();
    assert_eq!(first.choices[0].message.content.as_deref(), Some("a"));
    let second = push_bytes(&mut parser, b"", 0).unwrap().unwrap();
    assert_eq!(second.choices[0].message.content.as_deref(), Some("b"));
}
