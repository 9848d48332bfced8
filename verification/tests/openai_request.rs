use sashiko::openai::endpoint::{
    authorization_value, client_timeouts, default_base_url_for_model,
    default_context_window_for_model, normalize_base_url, ClientTimeouts,
};
use sashiko::openai::errors::{
    error_from_status, is_unsupported_stream_options_error, rate_limit_retry_hint,
    retry_after_header, should_retry_without_stream_options, AiErrorClass,
};
use sashiko::openai::request::{
    estimate_tokens_generic, translate_ai_request, translate_ai_response, AiMessage, AiRequest,
    AiResponseFormat, AiRole, AiTool, ToolCall,
};
use sashiko::openai::types::{
    OpenAiChoice, OpenAiCompatError, OpenAiMessage, OpenAiProviderType, OpenAiResponse,
    OpenAiToolCall, OpenAiToolCallFunction, OpenAiUsage, RetryAfter,
};
use serde_json::Value;

fn message(role: AiRole, content: Option<&str>) -> AiMessage {
    AiMessage {
        role,
        content: content.map(|c| c.to_string()),
        tool_calls: None,
        tool_call_id: None,
    }
}

fn request(system: Option<&str>, messages: Vec<AiMessage>, tools: Option<Vec<AiTool>>) -> AiRequest {
    AiRequest {
        system: system.map(|s| s.to_string()),
        messages,
        tools,
        response_format: None,
    }
}

fn parse(text: &str) -> Value {
    serde_json::from_str(text).unwrap()
}

#[test]
fn test_translate_request_system_and_user() {
    let req = request(
        Some("You are helpful."),
        vec![message(AiRole::User, Some("Hello!"))],
        None,
    );

    let openai_req = translate_ai_request(&req, 4096, OpenAiProviderType::OpenAiCompatible);

    assert_eq!(openai_req.messages.len(), 2);
    assert_eq!(openai_req.messages[0].role, "system");
    assert_eq!(openai_req.messages[0].content, Some("You are helpful.".to_string()));
    assert_eq!(openai_req.messages[1].role, "user");
    assert_eq!(openai_req.messages[1].content, Some("Hello!".to_string()));
    assert_eq!(openai_req.max_tokens, Some(4096));
}

#[test]
fn test_translate_request_system_in_messages() {
    let req = request(
        None,
        vec![
            message(AiRole::System, Some("Be concise.")),
            message(AiRole::User, Some("Say hi.")),
        ],
        None,
    );

    let openai_req = translate_ai_request(&req, 4096, OpenAiProviderType::OpenAiCompatible);

    assert_eq!(openai_req.messages.len(), 2);
    assert_eq!(openai_req.messages[0].role, "system");
    assert_eq!(openai_req.messages[0].content, Some("Be concise.".to_string()));
    assert_eq!(openai_req.messages[1].role, "user");
}

#[test]
fn test_translate_request_assistant_tool_call() {
    let req = request(
        None,
        vec![AiMessage {
            role: AiRole::Assistant,
            content: Some("I'll use a tool.".to_string()),
            tool_calls: Some(vec![ToolCall {
                id: "call_123".to_string(),
                function_name: "test_tool".to_string(),
                arguments: r#"{"arg1":"val1"}"#.to_string(),
            }]),
            tool_call_id: None,
        }],
        None,
    );

    let openai_req = translate_ai_request(&req, 4096, OpenAiProviderType::OpenAiCompatible);

    assert_eq!(openai_req.messages.len(), 1);
    assert_eq!(openai_req.messages[0].role, "assistant");
    assert_eq!(openai_req.messages[0].content, Some("I'll use a tool.".to_string()));
    let tool_calls = openai_req.messages[0].tool_calls.as_ref().unwrap();
    assert_eq!(tool_calls.len(), 1);
    assert_eq!(tool_calls[0].function.name, "test_tool");
    assert_eq!(tool_calls[0].function.arguments, r#"{"arg1":"val1"}"#);
    assert_eq!(tool_calls[0].tool_type, "function");
}

#[test]
fn test_translate_request_tool_response() {
    let req = request(
        None,
        vec![AiMessage {
            role: AiRole::Tool,
            content: Some(r#"{"result":"success"}"#.to_string()),
            tool_calls: None,
            tool_call_id: Some("call_123".to_string()),
        }],
        None,
    );

    let openai_req = translate_ai_request(&req, 4096, OpenAiProviderType::OpenAiCompatible);

    assert_eq!(openai_req.messages.len(), 1);
    assert_eq!(openai_req.messages[0].role, "tool");
    assert_eq!(openai_req.messages[0].tool_call_id, Some("call_123".to_string()));
    assert_eq!(
        openai_req.messages[0].content,
        Some(r#"{"result":"success"}"#.to_string())
    );
}

#[test]
fn test_translate_request_tools_definition() {
    let req = request(
        None,
        vec![],
        Some(vec![AiTool {
            name: "my_tool".to_string(),
            description: "Does something.".to_string(),
            parameters: r#"{"type":"object"}"#.to_string(),
        }]),
    );

    let openai_req = translate_ai_request(&req, 4096, OpenAiProviderType::OpenAiCompatible);

    let tools = openai_req.tools.as_ref().unwrap();
    assert_eq!(tools.len(), 1);
    assert_eq!(tools[0].tool_type, "function");
    assert_eq!(tools[0].function.name, "my_tool");
    assert_eq!(tools[0].function.description, "Does something.");
    assert_eq!(parse(&tools[0].function.parameters), parse(r#"{"type":"object"}"#));
}

#[test]
fn test_translate_request_empty_tools() {
    let req = request(None, vec![], Some(vec![]));

    let openai_req = translate_ai_request(&req, 4096, OpenAiProviderType::OpenAiCompatible);

    assert!(openai_req.tools.is_none());
}

#[test]
fn test_translate_request_conversation_chain() {
    let req = request(
        None,
        vec![
            message(AiRole::User, Some("Use tool")),
            AiMessage {
                role: AiRole::Assistant,
                content: None,
                tool_calls: Some(vec![ToolCall {
                    id: "c1".to_string(),
                    function_name: "t1".to_string(),
                    arguments: "{}".to_string(),
                }]),
                tool_call_id: None,
            },
            AiMessage {
                role: AiRole::Tool,
                content: Some(r#"{"ok":true}"#.to_string()),
                tool_calls: None,
                tool_call_id: Some("c1".to_string()),
            },
        ],
        Some(vec![AiTool {
            name: "t1".to_string(),
            description: "d1".to_string(),
            parameters: "{}".to_string(),
        }]),
    );

    let openai_req = translate_ai_request(&req, 4096, OpenAiProviderType::OpenAiCompatible);

    assert_eq!(openai_req.messages.len(), 3);
    assert_eq!(openai_req.messages[0].role, "user");
    assert_eq!(openai_req.messages[1].role, "assistant");
    assert_eq!(openai_req.messages[2].role, "tool");
    assert_eq!(openai_req.messages[2].tool_call_id.as_deref(), Some("c1"));
    assert!(openai_req.tools.is_some());
}

#[test]
fn test_translate_request_json_format() {
    let mut req = request(None, vec![message(AiRole::User, Some("Score this."))], None);
    req.response_format = Some(AiResponseFormat::Json);

    let openai_req = translate_ai_request(&req, 4096, OpenAiProviderType::OpenAiCompatible);

    assert_eq!(openai_req.response_format, Some("json_object".to_string()));
    assert_eq!(openai_req.messages[0].role, "system");
    assert_eq!(
        openai_req.messages[0].content,
        Some("Respond in JSON format.".to_string())
    );
    assert_eq!(openai_req.messages.len(), 2);
}

#[test]
fn test_translate_request_json_format_no_injection_when_present() {
    let mut req = request(
        Some("You are helpful."),
        vec![message(AiRole::User, Some("Return the score as JSON."))],
        None,
    );
    req.response_format = Some(AiResponseFormat::Json);

    let openai_req = translate_ai_request(&req, 4096, OpenAiProviderType::OpenAiCompatible);

    assert_eq!(openai_req.response_format, Some("json_object".to_string()));
    assert_eq!(openai_req.messages.len(), 2);
    assert_eq!(openai_req.messages[0].content, Some("You are helpful.".to_string()));
}

#[test]
fn json_hint_is_added_to_the_system_prompt() {
    let mut req = request(
        Some("Be brief."),
        vec![message(AiRole::User, Some("Score this."))],
        None,
    );
    req.response_format = Some(AiResponseFormat::Json);

    let openai_req = translate_ai_request(&req, 4096, OpenAiProviderType::OpenAiCompatible);

    assert_eq!(openai_req.messages.len(), 2);
    assert_eq!(
        openai_req.messages[0].content,
        Some("Be brief.\nRespond in JSON format.".to_string())
    );
}

#[test]
fn text_format_is_sent_as_text() {
    let mut req = request(None, vec![message(AiRole::User, Some("Hi"))], None);
    req.response_format = Some(AiResponseFormat::Text);

    let openai_req = translate_ai_request(&req, 4096, OpenAiProviderType::OpenAiCompatible);

    assert_eq!(openai_req.response_format, Some("text".to_string()));
    assert_eq!(openai_req.messages.len(), 1);
}

#[test]
fn test_max_tokens_for_openai_compatible() {
    let req = request(None, vec![message(AiRole::User, Some("Test"))], None);

    let openai_req = translate_ai_request(&req, 4096, OpenAiProviderType::OpenAiCompatible);

    assert_eq!(openai_req.max_tokens, Some(4096));
    assert_eq!(openai_req.max_completion_tokens, None);
}

#[test]
fn test_max_completion_tokens_for_openai() {
    let req = request(None, vec![message(AiRole::User, Some("Test"))], None);

    let openai_req = translate_ai_request(&req, 4096, OpenAiProviderType::OpenAi);

    assert_eq!(openai_req.max_tokens, None);
    assert_eq!(openai_req.max_completion_tokens, Some(4096));
}

#[test]
fn test_translate_request_preserves_tool_schemas() {
    let req = request(
        None,
        vec![],
        Some(vec![AiTool {
            name: "my_tool".to_string(),
            description: "Does something.".to_string(),
            parameters: r#"{"type":"object","properties":{"mode":{"type":"string"}}}"#
                .to_string(),
        }]),
    );

    let openai_req = translate_ai_request(&req, 4096, OpenAiProviderType::OpenAiCompatible);

    let tools = openai_req.tools.as_ref().unwrap();
    let parameters = parse(&tools[0].function.parameters);
    assert_eq!(parameters["type"], "object");
    assert_eq!(parameters["properties"]["mode"]["type"], "string");
}

fn response(message: OpenAiMessage, finish: &str, usage: (u32, u32, u32)) -> OpenAiResponse {
    OpenAiResponse {
        choices: vec![OpenAiChoice {
            index: 0,
            message,
            finish_reason: finish.to_string(),
        }],
        usage: OpenAiUsage {
            prompt_tokens: usage.0,
            completion_tokens: usage.1,
            total_tokens: usage.2,
        },
    }
}

#[test]
fn test_translate_response_text() {
    let openai_resp = response(
        OpenAiMessage {
            role: "assistant".to_string(),
            content: Some("Hello!".to_string()),
            tool_calls: None,
            tool_call_id: None,
        },
        "stop",
        (10, 20, 30),
    );

    let ai_resp = translate_ai_response(&openai_resp).unwrap();

    assert_eq!(ai_resp.content, Some("Hello!".to_string()));
    assert!(ai_resp.tool_calls.is_none());
    let usage = ai_resp.usage.unwrap();
    assert_eq!(usage.prompt_tokens, 10);
    assert_eq!(usage.completion_tokens, 20);
    assert_eq!(usage.total_tokens, 30);
    assert_eq!(usage.cached_tokens, None);
}

#[test]
fn test_translate_response_tool_calls() {
    let openai_resp = response(
        OpenAiMessage {
            role: "assistant".to_string(),
            content: None,
            tool_calls: Some(vec![OpenAiToolCall {
                id: "call_abc".to_string(),
                tool_type: "function".to_string(),
                function: OpenAiToolCallFunction {
                    name: "my_tool".to_string(),
                    arguments: r#"{"arg":"val"}"#.to_string(),
                },
            }]),
            tool_call_id: None,
        },
        "tool_calls",
        (15, 25, 40),
    );

    let ai_resp = translate_ai_response(&openai_resp).unwrap();

    assert_eq!(ai_resp.content, None);
    let tool_calls = ai_resp.tool_calls.unwrap();
    assert_eq!(tool_calls.len(), 1);
    assert_eq!(tool_calls[0].id, "call_abc");
    assert_eq!(tool_calls[0].function_name, "my_tool");
    assert_eq!(parse(&tool_calls[0].arguments)["arg"], "val");
}

#[test]
fn test_translate_response_empty_choices() {
    let openai_resp = OpenAiResponse {
        choices: vec![],
        usage: OpenAiUsage {
            prompt_tokens: 10,
            completion_tokens: 0,
            total_tokens: 10,
        },
    };

    let result = translate_ai_response(&openai_resp);
    assert!(result.is_err());
    assert_eq!(result.err().unwrap(), "No choices in response");
}

#[test]
fn test_estimate_tokens() {
    let req = request(
        Some("System prompt"),
        vec![
            message(AiRole::User, Some("Short message")),
            AiMessage {
                role: AiRole::Assistant,
                content: None,
                tool_calls: Some(vec![ToolCall {
                    id: "c1".to_string(),
                    function_name: "my_function".to_string(),
                    arguments: r#"{"key":"value"}"#.to_string(),
                }]),
                tool_call_id: None,
            },
        ],
        Some(vec![AiTool {
            name: "my_function".to_string(),
            description: "Does something".to_string(),
            parameters: r#"{"type":"object"}"#.to_string(),
        }]),
    );

    let tokens = estimate_tokens_generic(&req);
    assert!(tokens > 10);
    assert!(tokens < 200);
}

#[test]
fn estimate_tokens_sums_each_text() {
    // 13, 13, 11, 15, 11, 14 and 17 characters: 3 + 3 + 2 + 3 + 2 + 3 + 4 tokens.
    let req = request(
        Some("System prompt"),
        vec![
            message(AiRole::User, Some("Short message")),
            AiMessage {
                role: AiRole::Assistant,
                content: None,
                tool_calls: Some(vec![ToolCall {
                    id: "c1".to_string(),
                    function_name: "my_function".to_string(),
                    arguments: r#"{"key":"value"}"#.to_string(),
                }]),
                tool_call_id: None,
            },
        ],
        Some(vec![AiTool {
            name: "my_function".to_string(),
            description: "Does something".to_string(),
            parameters: r#"{"type":"object"}"#.to_string(),
        }]),
    );

    assert_eq!(estimate_tokens_generic(&req), 20);
    assert_eq!(estimate_tokens_generic(&request(None, vec![], None)), 0);
}

#[test]
fn test_normalize_base_url_appends_chat_completions() {
    assert_eq!(
        normalize_base_url("http://localhost:1234/v1"),
        "http://localhost:1234/v1/chat/completions"
    );
    assert_eq!(
        normalize_base_url("http://localhost:1234/v1/"),
        "http://localhost:1234/v1/chat/completions"
    );
    assert_eq!(
        normalize_base_url("https://api.openai.com/v1/chat/completions"),
        "https://api.openai.com/v1/chat/completions"
    );
    assert_eq!(
        normalize_base_url("http://localhost:1234/v1/chat/completions/"),
        "http://localhost:1234/v1/chat/completions"
    );
    assert_eq!(
        normalize_base_url("http://localhost:1234"),
        "http://localhost:1234/chat/completions"
    );
}

#[test]
fn normalize_base_url_strips_every_trailing_slash() {
    assert_eq!(
        normalize_base_url("http://h/v1///"),
        "http://h/v1/chat/completions"
    );
}

#[test]
fn default_base_url_follows_model_prefix() {
    assert_eq!(
        default_base_url_for_model("glm-4"),
        "https://open.bigmodel.cn/api/paas/v4/chat/completions"
    );
    assert_eq!(
        default_base_url_for_model("moonshot-v1-8k"),
        "https://api.moonshot.cn/v1/chat/completions"
    );
    assert_eq!(
        default_base_url_for_model("abab7-chat"),
        "https://api.minimax.chat/v1/text/chatcompletion_v2"
    );
    assert_eq!(
        default_base_url_for_model("MiniMax-Text-01"),
        "https://api.minimax.chat/v1/text/chatcompletion_v2"
    );
    assert_eq!(
        default_base_url_for_model("gpt-4o"),
        "https://api.openai.com/v1/chat/completions"
    );
}

#[test]
fn default_context_window_follows_model_prefix() {
    assert_eq!(default_context_window_for_model("glm-4"), 128_000);
    assert_eq!(default_context_window_for_model("moonshot-v1"), 128_000);
    assert_eq!(default_context_window_for_model("abab7-chat"), 245_760);
    assert_eq!(default_context_window_for_model("MiniMax-Text-01"), 245_760);
    assert_eq!(default_context_window_for_model("gpt-4o-mini"), 128_000);
    assert_eq!(default_context_window_for_model("gpt-4-turbo"), 128_000);
    assert_eq!(default_context_window_for_model("gpt-3.5-turbo"), 16_385);
    assert_eq!(default_context_window_for_model("llama3"), 128_000);
}

#[test]
fn status_errors_are_classified() {
    let wait = RetryAfter { secs: 60, nanos: 0 };
    assert!(matches!(
        error_from_status(429, None, wait, "slow down".to_string()),
        OpenAiCompatError::RateLimitExceeded(RetryAfter { secs: 60, nanos: 0 })
    ));
    assert!(matches!(
        error_from_status(401, None, wait, "bad key".to_string()),
        OpenAiCompatError::AuthenticationError(m) if m == "bad key"
    ));
    assert!(matches!(
        error_from_status(403, None, wait, "forbidden".to_string()),
        OpenAiCompatError::AuthenticationError(_)
    ));
    assert!(matches!(
        error_from_status(503, Some(7), wait, "busy".to_string()),
        OpenAiCompatError::TransientError(RetryAfter { secs: 7, nanos: 0 }, m) if m == "busy"
    ));
    assert!(matches!(
        error_from_status(500, None, wait, "oops".to_string()),
        OpenAiCompatError::TransientError(RetryAfter { secs: 0, nanos: 0 }, _)
    ));
    assert!(matches!(
        error_from_status(400, None, wait, "bad request".to_string()),
        OpenAiCompatError::ApiError(400, m) if m == "bad request"
    ));
}

#[test]
fn stream_options_rejection_is_detected_case_insensitively() {
    assert!(is_unsupported_stream_options_error(
        "Unknown field STREAM_OPTIONS in request"
    ));
    assert!(is_unsupported_stream_options_error(
        "stream_options.include_usage is not allowed"
    ));
    assert!(!is_unsupported_stream_options_error("stream_options is fine"));
    assert!(!is_unsupported_stream_options_error("unsupported model"));

    let rejected = OpenAiCompatError::ApiError(400, "Unsupported parameter: stream_options".to_string());
    assert!(should_retry_without_stream_options(&rejected));
    let other_status =
        OpenAiCompatError::ApiError(422, "Unsupported parameter: stream_options".to_string());
    assert!(!should_retry_without_stream_options(&other_status));
    let auth = OpenAiCompatError::AuthenticationError("stream_options unsupported".to_string());
    assert!(!should_retry_without_stream_options(&auth));
}

#[test]
fn streaming_client_only_limits_connecting() {
    assert_eq!(
        client_timeouts(true, 300),
        ClientTimeouts { connect_secs: Some(60), request_secs: None }
    );
    assert_eq!(
        client_timeouts(true, 0),
        ClientTimeouts { connect_secs: Some(1), request_secs: None }
    );
    assert_eq!(
        client_timeouts(true, 15),
        ClientTimeouts { connect_secs: Some(15), request_secs: None }
    );
    assert_eq!(
        client_timeouts(false, 300),
        ClientTimeouts { connect_secs: None, request_secs: Some(300) }
    );
}

#[test]
fn api_key_comes_from_the_first_variable_set() {
    assert_eq!(
        authorization_value(Some("sk-a"), Some("sk-b")),
        Some("Bearer sk-a".to_string())
    );
    assert_eq!(authorization_value(None, Some("sk-b")), Some("Bearer sk-b".to_string()));
    assert_eq!(authorization_value(None, None), None);
    assert_eq!(authorization_value(Some(""), Some("sk-b")), None);
}

#[test]
fn response_tool_arguments_are_parsed_as_json() {
    let call = |args: &str| OpenAiToolCall {
        id: "c".to_string(),
        tool_type: "function".to_string(),
        function: OpenAiToolCallFunction { name: "f".to_string(), arguments: args.to_string() },
    };
    let openai_resp = response(
        OpenAiMessage {
            role: "assistant".to_string(),
            content: None,
            tool_calls: Some(vec![call("not json"), call("{ \"arg\" : \"val\" }"), call("")]),
            tool_call_id: None,
        },
        "tool_calls",
        (1, 1, 2),
    );

    let tool_calls = translate_ai_response(&openai_resp).unwrap().tool_calls.unwrap();
    assert_eq!(tool_calls[0].arguments, "null");
    assert_eq!(tool_calls[1].arguments, r#"{"arg":"val"}"#);
    assert_eq!(tool_calls[2].arguments, "null");
}

#[test]
fn test_rate_limit_exceeded_classifies_as_rate_limit() {
    let retry_after = RetryAfter { secs: 7, nanos: 0 };
    let err = OpenAiCompatError::RateLimitExceeded(retry_after);

    assert_eq!(err.ai_error_class(None), AiErrorClass::RateLimit { retry_after });
}

#[test]
fn test_transient_error_classifies_as_transient() {
    let retry_after = RetryAfter { secs: 11, nanos: 0 };
    let err = OpenAiCompatError::TransientError(retry_after, "busy".to_string());

    assert_eq!(err.ai_error_class(None), AiErrorClass::Transient { retry_after });
}

#[test]
fn test_authentication_error_classifies_as_fatal() {
    let err = OpenAiCompatError::AuthenticationError("bad key".to_string());

    assert_eq!(err.ai_error_class(None), AiErrorClass::Fatal);
}

#[test]
fn api_errors_take_their_status_class() {
    let err = OpenAiCompatError::ApiError(503, "unavailable".to_string());
    let wait = RetryAfter { secs: 5, nanos: 0 };
    assert_eq!(
        err.ai_error_class(Some(AiErrorClass::Transient { retry_after: wait })),
        AiErrorClass::Transient { retry_after: wait }
    );
    assert_eq!(err.ai_error_class(None), AiErrorClass::Fatal);
    let auth = OpenAiCompatError::AuthenticationError("x".to_string());
    assert_eq!(auth.ai_error_class(Some(AiErrorClass::Transient { retry_after: wait })), AiErrorClass::Fatal);
}

#[test]
fn retry_hint_is_found_in_the_error_text() {
    assert_eq!(
        rate_limit_retry_hint("Quota exceeded. Please retry in 12.5s."),
        Some("12.5".to_string())
    );
    assert_eq!(rate_limit_retry_hint("Please retry in s"), None);
    assert_eq!(rate_limit_retry_hint("slow down"), None);
}

#[test]
fn retry_after_header_parses_whole_seconds() {
    assert_eq!(retry_after_header("30"), Some(30));
    assert_eq!(retry_after_header("+7"), Some(7));
    assert_eq!(retry_after_header("18446744073709551615"), Some(u64::MAX));
    assert_eq!(retry_after_header("18446744073709551616"), None);
    assert_eq!(retry_after_header(" 30"), None);
    assert_eq!(retry_after_header("1.5"), None);
    assert_eq!(retry_after_header(""), None);
    assert_eq!(retry_after_header("Wed, 21 Oct 2015 07:28:00 GMT"), None);
}
