use picocode::ai::openai::{
    chat_request_body, client_config_for, image_input_error, parse_chat_response,
    provider_error_message, response_preview, split_curl_status, tool_arguments_json_string,
    OpenAiCompatibleProvider, OpenAiConfig,
};
use picocode::ai::{
    content_blocks_to_text, context_from_events, json_escape, AiContext, AiMessage,
    AssistantMessage, AssistantOutput, ContentBlock, ModelCapabilities, StopReason, ToolSpec,
};
use picocode::event::{
    CompactionEvent, Event, EventMsg, ImageAttachmentEvent, ToolCallEvent, ToolResultEvent,
};
use picocode::tool::ToolResultStatus;

#[test]
fn context_from_events_collects_system_prompt_and_messages() {
    let events = vec![
        Event::new("evt-0", EventMsg::system("project rules")),
        Event::new("evt-1", EventMsg::user("hello")),
        Event::new("evt-2", EventMsg::assistant("hi")),
    ];

    let context = context_from_events(&events);

    assert!(context
        .system_prompt
        .as_ref()
        .unwrap()
        .contains("project rules"));
    assert_eq!(context.messages.len(), 2);
    assert!(matches!(context.messages[0], AiMessage::User(_)));
    assert!(matches!(context.messages[1], AiMessage::Assistant(_)));
}

#[test]
fn context_from_events_maps_tool_events_to_tool_messages() {
    let events = vec![
        Event::new(
            "evt-0",
            EventMsg::ToolCall(ToolCallEvent::new("call-0", "read", "path=Cargo.toml")),
        ),
        Event::new(
            "evt-1",
            EventMsg::ToolResult(ToolResultEvent {
                call_id: "call-0".to_owned(),
                status: ToolResultStatus::Success,
                content: "path: Cargo.toml".to_owned(),
                truncated: false,
                next_offset: None,
                edits: Vec::new(),
            }),
        ),
    ];

    let context = context_from_events(&events);

    assert_eq!(context.messages.len(), 2);
    match &context.messages[0] {
        AiMessage::Assistant(message) => {
            assert!(matches!(message.content[0], ContentBlock::ToolCall(_)));
        }
        _ => panic!("expected assistant tool call message"),
    }
    match &context.messages[1] {
        AiMessage::ToolResult(message) => {
            assert_eq!(message.tool_call_id, "call-0");
            assert_eq!(content_blocks_to_text(&message.content), "path: Cargo.toml");
        }
        _ => panic!("expected tool result message"),
    }
}

#[test]
fn context_from_events_attaches_images_to_the_next_user_message() {
    let events = vec![
        Event::new(
            "evt-0",
            EventMsg::ImageAttachment(ImageAttachmentEvent::new(
                "./shot.png",
                "shot.png",
                "image/png",
                12,
                "data:image/png;base64,AAAA",
            )),
        ),
        Event::new("evt-1", EventMsg::user("what do you see?")),
    ];

    let context = context_from_events(&events);

    assert_eq!(context.messages.len(), 1);
    match &context.messages[0] {
        AiMessage::User(message) => {
            assert!(matches!(message.content[0], ContentBlock::Image(_)));
            assert_eq!(content_blocks_to_text(&message.content), "what do you see?");
        }
        _ => panic!("expected user message"),
    }
}

#[test]
fn context_from_events_uses_latest_compaction_summary_and_skips_earlier_events() {
    let events = vec![
        Event::new("evt-0", EventMsg::user("old user")),
        Event::new(
            "evt-1",
            EventMsg::Compaction(CompactionEvent {
                summary: "Goal: keep the active thread focused.".to_owned(),
                folded_event_count: 1,
            }),
        ),
        Event::new("evt-2", EventMsg::system("project rules")),
        Event::new("evt-3", EventMsg::user("new user")),
    ];

    let context = context_from_events(&events);

    assert!(context
        .system_prompt
        .as_ref()
        .unwrap()
        .contains("Session compaction summary"));
    assert!(context
        .system_prompt
        .as_ref()
        .unwrap()
        .contains("Goal: keep the active thread focused."));
    assert_eq!(context.messages.len(), 1);
    match &context.messages[0] {
        AiMessage::User(message) => {
            assert_eq!(content_blocks_to_text(&message.content), "new user");
        }
        _ => panic!("expected user message"),
    }
}

#[test]
fn text_output_concatenates_text_blocks() {
    let output = AssistantOutput {
        message: AssistantMessage {
            content: vec![ContentBlock::text("hello"), ContentBlock::text(" world")],
            stop_reason: Some(StopReason::Stop),
            usage: None,
        },
        raw_response_id: None,
    };

    assert_eq!(output.text_content(), "hello world");
}

#[test]
fn provider_content_preserves_plain_text() {
    let output = AssistantOutput::from_provider_content("hello world");

    assert_eq!(output.text_content(), "hello world");
    assert_eq!(
        output.message.content,
        vec![ContentBlock::text("hello world")]
    );
}

#[test]
fn provider_content_moves_think_tags_out_of_visible_text() {
    let output = AssistantOutput::from_provider_content(
        "<think>The user is asking who I am.</think>\n我是 picocode。",
    );

    assert_eq!(output.text_content(), "我是 picocode。");
    assert_eq!(
        output.message.content,
        vec![
            ContentBlock::thinking("The user is asking who I am."),
            ContentBlock::text("我是 picocode。"),
        ]
    );
}

#[test]
fn provider_content_handles_multiple_think_blocks() {
    let output =
        AssistantOutput::from_provider_content("A<think>hidden 1</think>B<think>hidden 2</think>C");

    assert_eq!(output.text_content(), "ABC");
    assert_eq!(
        output.message.content,
        vec![
            ContentBlock::text("A"),
            ContentBlock::thinking("hidden 1"),
            ContentBlock::text("B"),
            ContentBlock::thinking("hidden 2"),
            ContentBlock::text("C"),
        ]
    );
}

#[test]
fn provider_content_keeps_unclosed_think_text() {
    let output = AssistantOutput::from_provider_content("A<think>never closed");

    assert_eq!(
        output.message.content,
        vec![
            ContentBlock::text("A"),
            ContentBlock::text("A<think>never closed"),
        ]
    );
}

#[test]
fn provider_content_without_visible_text_is_one_empty_block() {
    let output = AssistantOutput::from_provider_content("<think>only thoughts</think>");

    assert_eq!(
        output.message.content,
        vec![ContentBlock::thinking("only thoughts")]
    );
    let empty = AssistantOutput::from_provider_content("");
    assert_eq!(empty.message.content, vec![ContentBlock::text("")]);
}

#[test]
fn json_escape_handles_quotes_and_newlines() {
    assert_eq!(json_escape("a \"quote\"\n"), "a \\\"quote\\\"\\n");
}

#[test]
fn json_escape_writes_control_characters_as_unicode_escapes() {
    assert_eq!(json_escape("a\u{1}b\\\t"), "a\\u0001b\\\\\\t");
    assert_eq!(json_escape("\u{7f}"), "\\u007f");
}

#[test]
fn request_body_serializes_context() {
    let context = AiContext::new(
        Some("rules".to_owned()),
        vec![
            AiMessage::user_text("hello"),
            AiMessage::assistant_text("hi"),
        ],
    );

    let body = chat_request_body("model", &context);

    assert!(body.contains("\"model\":\"model\""));
    assert!(body.contains("\"role\":\"system\",\"content\":\"rules\""));
    assert!(body.contains("\"role\":\"user\",\"content\":\"hello\""));
    assert!(body.contains("\"role\":\"assistant\",\"content\":\"hi\""));
}

#[test]
fn request_body_is_exact_for_a_short_context() {
    let context = AiContext::new(None, vec![AiMessage::user_text("hi")]);

    let body = chat_request_body("m", &context);

    assert_eq!(
        body,
        "{\"model\":\"m\",\"messages\":[{\"role\":\"user\",\"content\":\"hi\"}] }"
    );
}

#[test]
fn request_body_serializes_image_messages() {
    let context = AiContext::new(
        None,
        vec![AiMessage::user_content(vec![
            ContentBlock::image(
                "./shot.png",
                "shot.png",
                "image/png",
                "data:image/png;base64,AAAA",
            ),
            ContentBlock::text("what do you see?"),
        ])],
    );

    let body = chat_request_body("model", &context);

    assert!(body.contains("\"role\":\"user\",\"content\":["));
    assert!(body.contains("\"type\":\"image_url\""));
    assert!(body.contains("\"data:image/png;base64,AAAA\""));
    assert!(body.contains("\"type\":\"text\",\"text\":\"what do you see?\""));
}

#[test]
fn request_body_serializes_tools() {
    let mut context = AiContext::new(None, vec![AiMessage::user_text("inspect")]);
    context.tools = vec![ToolSpec {
        name: "read".to_owned(),
        description: "Read a file".to_owned(),
        input_schema_json: "{\"type\":\"object\",\"properties\":{\"path\":{\"type\":\"string\"}},\"required\":[\"path\"]}".to_owned(),
    }];

    let body = chat_request_body("model", &context);

    assert!(body.contains("\"tools\""));
    assert!(body.contains("\"name\":\"read\""));
    assert!(body.contains("\"tool_choice\":\"auto\""));
}

#[test]
fn request_body_serializes_tool_result_messages() {
    let context = AiContext::new(
        None,
        vec![
            AiMessage::Assistant(AssistantMessage {
                content: vec![ContentBlock::tool_call("call-1", "read", "path=Cargo.toml")],
                stop_reason: Some(StopReason::ToolUse),
                usage: None,
            }),
            AiMessage::tool_result("call-1", "path: Cargo.toml", false),
        ],
    );

    let body = chat_request_body("model", &context);

    assert!(body.contains("\"tool_calls\""));
    assert!(body.contains("\"role\":\"tool\""));
    assert!(body.contains("\"tool_call_id\":\"call-1\""));
    assert!(body.contains("\"content\":\"path: Cargo.toml\""));
    assert!(body.contains("\"arguments\":\"{\\\"path\\\":\\\"Cargo.toml\\\"}\""));
}

#[test]
fn tool_arguments_json_string_converts_key_value_lines() {
    let arguments =
        tool_arguments_json_string("query=ToolRuntime\npath=src\nlimit=20\nignore_case=true");

    assert_eq!(
        arguments,
        "{\"ignore_case\":true,\"limit\":20,\"path\":\"src\",\"query\":\"ToolRuntime\"}"
    );
}

#[test]
fn tool_arguments_json_string_preserves_json_arguments() {
    let arguments = tool_arguments_json_string("{\"path\":\"Cargo.toml\",\"limit\":20}");

    assert_eq!(arguments, "{\"path\":\"Cargo.toml\",\"limit\":20}");
}

#[test]
fn tool_arguments_json_string_keeps_the_last_value_of_a_key() {
    let arguments = tool_arguments_json_string("b=1\na=x\nb=false\n{not json");

    assert_eq!(arguments, "{\"a\":\"x\",\"b\":false}");
    assert_eq!(tool_arguments_json_string("{broken"), "{}");
}

#[test]
fn split_curl_status_extracts_body_and_status() {
    let stdout = "{\"ok\":false}\n__PICOCODE_HTTP_STATUS__:400";

    let (body, status) = split_curl_status(stdout).unwrap();

    assert_eq!(body, "{\"ok\":false}");
    assert_eq!(status, 400);
}

#[test]
fn split_curl_status_uses_the_last_marker_and_rejects_bad_status() {
    let stdout = "a\n__PICOCODE_HTTP_STATUS__:1\nb\n__PICOCODE_HTTP_STATUS__: 200 ";
    let (body, status) = split_curl_status(stdout).unwrap();
    assert_eq!(body, "a\n__PICOCODE_HTTP_STATUS__:1\nb");
    assert_eq!(status, 200);
    assert!(split_curl_status("x\n__PICOCODE_HTTP_STATUS__:70000").is_none());
    assert!(split_curl_status("no marker").is_none());
}

#[test]
fn response_preview_trims_and_limits() {
    assert_eq!(response_preview("  upstream unavailable \n"), "upstream unavailable");
    assert_eq!(response_preview("   "), "<empty response body>");
    let long = "x".repeat(1300);
    let preview = response_preview(&long);
    assert_eq!(preview.len(), 1203);
    assert!(preview.ends_with("..."));
}

#[test]
fn config_trims_base_url_slash() {
    let config = OpenAiConfig {
        base_url: "https://example.com/v1/".to_owned(),
        api_key: "key".to_owned(),
        model_id: "model".to_owned(),
        capabilities: ModelCapabilities::default(),
    };

    let provider = OpenAiCompatibleProvider::new(config);

    assert_eq!(provider.config.base_url, "https://example.com/v1");
    assert_eq!(provider.model.id, "model");
    assert_eq!(
        provider.completions_url(),
        "https://example.com/v1/chat/completions"
    );
}

#[test]
fn parse_chat_response_extracts_tool_calls() {
    let response = r#"{"choices":[{"message":{"role":"assistant","content":null,"tool_calls":[{"id":"call_1","type":"function","function":{"name":"read","arguments":"{\"path\":\"Cargo.toml\",\"offset\":0,\"limit\":20}"}}]}}]}"#;

    let output = parse_chat_response(response).unwrap();
    let calls = output.tool_calls();

    assert_eq!(calls.len(), 1);
    assert_eq!(calls[0].id, "call_1");
    assert_eq!(calls[0].name, "read");
    assert_eq!(calls[0].arguments, "{\"path\":\"Cargo.toml\",\"offset\":0,\"limit\":20}");
    assert_eq!(output.message.stop_reason, Some(StopReason::ToolUse));
}

#[test]
fn parse_chat_response_surfaces_provider_error() {
    let response = r#"{"error":{"message":"tools are not supported by this model","type":"invalid_request_error","code":"unsupported_tools"}}"#;

    let error = parse_chat_response(response).unwrap_err();

    assert!(error.contains("tools are not supported by this model"));
    assert!(error.contains("invalid_request_error"));
    assert!(error.contains("unsupported_tools"));
}

#[test]
fn parse_chat_response_surfaces_unexpected_body() {
    let response = r#"{"id":"resp_1","object":"chat.completion"}"#;

    let error = parse_chat_response(response).unwrap_err();

    assert!(error.contains("choices[0].message"));
    assert!(error.contains("resp_1"));
}

#[test]
fn provider_error_message_falls_back_to_body_preview() {
    let message = provider_error_message("upstream unavailable");

    assert_eq!(message, "upstream unavailable");
}

#[test]
fn parse_chat_response_reads_plain_content() {
    let response = r#"{"choices":[{"message":{"role":"assistant","content":"hello there"}}]}"#;

    let output = parse_chat_response(response).unwrap();

    assert_eq!(output.text_content(), "hello there");
    assert!(output.tool_calls().is_empty());
    assert_eq!(output.message.stop_reason, Some(StopReason::Stop));
}

#[test]
fn parse_chat_response_numbers_calls_without_id_and_keeps_text() {
    let response = r#"{"choices":[{"message":{"content":"Looking.","tool_calls":[{"function":{"name":"ls","arguments":"path=."}},{"function":{"name":"bad"}}]}}]}"#;

    let output = parse_chat_response(response).unwrap();
    let calls = output.tool_calls();

    assert_eq!(output.text_content(), "Looking.");
    assert_eq!(calls.len(), 1);
    assert_eq!(calls[0].id, "call-0");
    assert_eq!(calls[0].name, "ls");
}

#[test]
fn parse_chat_response_rejects_invalid_json() {
    let error = parse_chat_response("not json").unwrap_err();

    assert!(error.starts_with("provider returned invalid JSON ("));
    assert!(error.ends_with("): not json"));
}

#[test]
fn provider_errors_name_type_and_code() {
    assert_eq!(provider_error_message(r#"{"error":"quota exceeded"}"#), "quota exceeded");
    assert_eq!(
        provider_error_message(r#"{"error":{"message":"bad","code":429}}"#),
        "bad (code=429)"
    );
    assert_eq!(
        provider_error_message(r#"{"error":{"type":"server"}}"#),
        "unknown provider error (type=server)"
    );
    assert_eq!(provider_error_message(r#"{"ok":false}"#), "{\"ok\":false}");
}

#[test]
fn client_config_serves_only_chat_completions() {
    let mut model = picocode::config::default_model_option();
    model.api = "openai-chat-completions".to_owned();
    let config = client_config_for(&model, "key".to_owned()).unwrap();
    assert_eq!(config.api_key, "key");
    assert_eq!(config.model_id, model.model);

    model.api = "anthropic-messages".to_owned();
    assert_eq!(
        client_config_for(&model, "key".to_owned()).unwrap_err(),
        "Unsupported AI API 'anthropic-messages'"
    );
}

#[test]
fn image_input_is_refused_for_text_only_models() {
    let context = AiContext::new(
        None,
        vec![AiMessage::user_content(vec![ContentBlock::image("a.png", "a.png", "image/png", "data:image/png;base64,AA")])],
    );
    let model = picocode::ai::Model::new("text-only", "openai", "openai-chat-completions", ModelCapabilities::default());
    assert_eq!(
        image_input_error(&context, &model).unwrap(),
        "selected model 'text-only' does not support image input. Switch to a vision-capable model."
    );
    let plain = AiContext::new(None, vec![AiMessage::user_text("hi")]);
    assert!(image_input_error(&plain, &model).is_none());
}
