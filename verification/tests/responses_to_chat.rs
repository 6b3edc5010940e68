use llmconduit::adapters::responses_to_chat::content::{
    content_item_to_chat_value, message_content_to_chat_value, reasoning_item_text,
    stringify_tool_output, tool_call_arguments_object, web_search_arguments,
    web_search_placeholder_result,
};
use llmconduit::adapters::responses_to_chat::tools::{
    build_tool_registry, lower_tools, validate_request, ToolKind,
};
use llmconduit::adapters::responses_to_chat::{
    append_tool_call, arguments_or_error, hoist_system_messages, lower_request,
    lower_request_with_options,
};
use llmconduit::json::{parse_json, render_json, Json};
use llmconduit::models::chat::ChatMessage;
use llmconduit::models::responses::{
    ContentItem, ReasoningContentItem, ReasoningRequest, ReasoningSummaryItem, ResponseItem,
    ResponsesRequest, ToolSpec, WebSearchAction,
};

fn json(text: &str) -> Json {
    parse_json(text).expect("JSON")
}

fn text(value: &Json) -> String {
    render_json(value)
}

fn base_test_request() -> ResponsesRequest {
    ResponsesRequest {
        model: "test".to_string(),
        instructions: String::new(),
        input: vec![],
        tools: vec![],
        tool_choice: Json::Text("auto".to_string()),
        parallel_tool_calls: false,
        reasoning: None,
        store: false,
        stream: true,
        included: vec![],
        service_tier: None,
        prompt_cache_key: None,
        text: None,
        client_metadata: None,
        previous_response_id: None,
        temperature: None,
        top_p: None,
        max_output_tokens: None,
        frequency_penalty: None,
        presence_penalty: None,
        truncation: None,
        metadata: None,
        stop: None,
        extra_body: Vec::new(),
    }
}

fn user_msg(text: &str) -> ResponseItem {
    ResponseItem::Message {
        id: None,
        role: "user".to_string(),
        content: vec![ContentItem::InputText {
            text: text.to_string(),
        }],
        phase: None,
    }
}

#[test]
fn validate_accepts_stream_false() {
    let mut req = base_test_request();
    req.stream = false;
    assert!(validate_request(&req).is_ok());
}

#[test]
fn validate_rejects_previous_response_id() {
    let mut req = base_test_request();
    req.previous_response_id = Some("resp_123".to_string());
    assert!(validate_request(&req).is_err());
}

#[test]
fn validate_accepts_all_tool_choice_values() {
    let req = base_test_request();
    assert!(validate_request(&req).is_ok());

    let mut req2 = base_test_request();
    req2.tool_choice = Json::Text("required".to_string());
    req2.tools = vec![ToolSpec::Function {
        name: "f".to_string(),
        description: "d".to_string(),
        strict: false,
        parameters: json(r#"{}"#),
    }];
    assert!(validate_request(&req2).is_ok());

    let mut req3 = base_test_request();
    req3.tool_choice = Json::Text("none".to_string());
    assert!(validate_request(&req3).is_ok());

    let mut req4 = base_test_request();
    req4.tool_choice = json(r#"{"type": "function", "function": {"name": "echo"}}"#);
    req4.tools = vec![ToolSpec::Function {
        name: "echo".to_string(),
        description: "d".to_string(),
        strict: false,
        parameters: json(r#"{}"#),
    }];
    assert!(validate_request(&req4).is_ok());
}

#[test]
fn validate_accepts_image_generation_tool() {
    let mut req = base_test_request();
    req.tools = vec![ToolSpec::ImageGeneration {
        output_format: None,
    }];
    assert!(validate_request(&req).is_ok());
}

#[test]
fn trailing_reasoning_flushed_as_message() {
    let mut req = base_test_request();
    req.input = vec![
        user_msg("hello"),
        ResponseItem::Reasoning {
            id: "rsn_1".to_string(),
            summary: vec![ReasoningSummaryItem::SummaryText {
                text: "thinking".to_string(),
            }],
            content: None,
            encrypted_content: None,
        },
    ];
    let result = lower_request(&req, vec![]).unwrap();
    let last = result.messages.last().unwrap();
    assert_eq!(last.role, "assistant");
    assert!(last.reasoning_content.is_some());
    assert!(last.content.is_none());
}

#[test]
fn signed_reasoning_history_preserves_chat_thinking_signature() {
    let mut req = base_test_request();
    req.input = vec![
        user_msg("hello"),
        ResponseItem::Reasoning {
            id: "rsn_1".to_string(),
            summary: Vec::new(),
            content: Some(vec![ReasoningContentItem::ReasoningText {
                text: "private chain".to_string(),
            }]),
            encrypted_content: Some("sig_history".to_string()),
        },
        ResponseItem::Message {
            id: None,
            role: "assistant".to_string(),
            content: vec![ContentItem::OutputText {
                text: "answer".to_string(),
            }],
            phase: None,
        },
    ];

    let result = lower_request(&req, vec![]).unwrap();
    let assistant = result
        .messages
        .iter()
        .find(|message| message.role == "assistant")
        .expect("assistant message");
    assert_eq!(
        assistant.reasoning_content.as_deref(),
        Some("private chain")
    );
    let thinking = assistant.thinking.as_ref().expect("signed thinking");
    assert_eq!(thinking.content, "private chain");
    assert_eq!(thinking.signature.as_deref(), Some("sig_history"));
}

#[test]
fn normalizes_medium_reasoning_effort_for_upstream() {
    let mut req = base_test_request();
    req.reasoning = Some(ReasoningRequest {
        effort: Some("medium".to_string()),
        summary: None,
    });

    let result = lower_request(&req, vec![]).expect("lower_request");
    assert_eq!(result.reasoning_effort.as_deref(), Some("high"));
}

#[test]
fn defaults_missing_reasoning_effort_to_max_for_upstream() {
    let req = base_test_request();

    let result = lower_request(&req, vec![]).expect("lower_request");
    assert_eq!(result.reasoning_effort.as_deref(), Some("max"));
}

#[test]
fn preserves_max_reasoning_effort_for_upstream() {
    let mut req = base_test_request();
    req.reasoning = Some(ReasoningRequest {
        effort: Some("max".to_string()),
        summary: None,
    });

    let result = lower_request(&req, vec![]).expect("lower_request");
    assert_eq!(result.reasoning_effort.as_deref(), Some("max"));
}

#[test]
fn normalizes_xhigh_reasoning_effort_to_max_for_upstream() {
    let mut req = base_test_request();
    req.reasoning = Some(ReasoningRequest {
        effort: Some("xhigh".to_string()),
        summary: None,
    });

    let result = lower_request(&req, vec![]).expect("lower_request");
    assert_eq!(result.reasoning_effort.as_deref(), Some("max"));
}

#[test]
fn normalizes_low_reasoning_effort_to_high_for_upstream() {
    let mut req = base_test_request();
    req.reasoning = Some(ReasoningRequest {
        effort: Some("  LoW  ".to_string()),
        summary: None,
    });

    let result = lower_request(&req, vec![]).expect("lower_request");
    assert_eq!(result.reasoning_effort.as_deref(), Some("high"));
}

#[test]
fn duplicate_tool_name_rejected() {
    let tools = vec![
        ToolSpec::Function {
            name: "echo".to_string(),
            description: "a".to_string(),
            strict: false,
            parameters: json(r#"{}"#),
        },
        ToolSpec::Function {
            name: "echo".to_string(),
            description: "b".to_string(),
            strict: false,
            parameters: json(r#"{}"#),
        },
    ];
    assert!(lower_tools(&tools).is_err());
}

#[test]
fn mixed_text_and_image_content() {
    let content = vec![
        ContentItem::InputText {
            text: "hi".to_string(),
        },
        ContentItem::InputImage {
            image_url: Some("http://img.png".to_string()),
            file_id: None,
            detail: None,
        },
    ];
    let value = message_content_to_chat_value(&content);
    assert!(value.as_array().is_some());
    let arr = value.as_array().unwrap();
    assert_eq!(arr.len(), 2);
    assert_eq!(arr[0].get_str("type"), Some("text"));
    assert_eq!(arr[1].get_str("type"), Some("image_url"));
    assert_eq!(arr[1].get("image_url").and_then(|v| v.get_str("url")), Some("http://img.png"));
}

#[test]
fn single_input_image_wraps_as_array() {
    let item = ContentItem::InputImage {
        image_url: Some("http://img.png".to_string()),
        file_id: None,
        detail: Some("high".to_string()),
    };
    let value = content_item_to_chat_value(&item);
    assert!(value.as_array().is_some());
    assert_eq!(value.as_array().unwrap()[0].get_str("type"), Some("image_url"));
    assert_eq!(
        value.as_array().unwrap()[0].get("image_url").and_then(|v| v.get_str("url")),
        Some("http://img.png")
    );
    assert_eq!(
        value.as_array().unwrap()[0].get("image_url").and_then(|v| v.get_str("detail")),
        Some("high")
    );
}

#[test]
fn input_file_passes_through_as_content_part() {
    let item = ContentItem::InputFile {
        file_id: Some("file_123".to_string()),
        file_url: None,
        filename: Some("brief.pdf".to_string()),
        file_data: None,
    };
    let value = content_item_to_chat_value(&item);
    assert!(value.as_array().is_some());
    assert_eq!(value.as_array().unwrap()[0].get_str("type"), Some("input_file"));
    assert_eq!(value.as_array().unwrap()[0].get_str("file_id"), Some("file_123"));
    assert_eq!(value.as_array().unwrap()[0].get_str("filename"), Some("brief.pdf"));
}

#[test]
fn web_search_arguments_all_actions() {
    let search = Some(WebSearchAction::Search {
        query: Some("test".to_string()),
        queries: None,
    });
    assert_eq!(text(&web_search_arguments(&search)), text(&json(r#"{"query": "test"}"#)));

    let open = Some(WebSearchAction::OpenPage {
        url: Some("http://x.com".to_string()),
    });
    assert_eq!(text(&web_search_arguments(&open)), text(&json(r#"{"url": "http://x.com"}"#)));

    let find = Some(WebSearchAction::FindInPage {
        url: Some("http://x.com".to_string()),
        pattern: Some("foo".to_string()),
    });
    assert_eq!(text(&web_search_arguments(&find)), text(&json(r#"{"url": "http://x.com", "pattern": "foo"}"#)));

    assert_eq!(text(&web_search_arguments(&Some(WebSearchAction::Other))), text(&json(r#"{}"#)));
    assert_eq!(text(&web_search_arguments(&None)), text(&json(r#"{}"#)));
}

#[test]
fn web_search_placeholder_result_all_actions() {
    let search = Some(WebSearchAction::Search {
        query: Some("test".to_string()),
        queries: None,
    });
    assert!(web_search_placeholder_result(&search).contains("test"));

    let open = Some(WebSearchAction::OpenPage {
        url: Some("http://x.com".to_string()),
    });
    assert!(web_search_placeholder_result(&open).contains("http://x.com"));

    let find = Some(WebSearchAction::FindInPage {
        url: Some("http://x.com".to_string()),
        pattern: Some("foo".to_string()),
    });
    let result = web_search_placeholder_result(&find);
    assert!(result.contains("http://x.com"));
    assert!(result.contains("foo"));

    assert!(
        web_search_placeholder_result(&Some(WebSearchAction::Other))
            .contains("replay state was missing")
    );
    assert!(web_search_placeholder_result(&None).contains("replay state was missing"));
}

#[test]
fn tool_search_call_non_client_error() {
    let mut req = base_test_request();
    req.input = vec![
        user_msg("hello"),
        ResponseItem::ToolSearchCall {
            call_id: Some("ts_1".to_string()),
            status: None,
            execution: "server".to_string(),
            arguments: json(r#"{}"#),
        },
    ];
    let result = lower_request(&req, vec![]);
    assert!(result.is_err());
    assert!(result.unwrap_err().message.contains("execution=client"));
}

#[test]
fn stringify_tool_output_non_string() {
    assert_eq!(stringify_tool_output(&json(r#"42"#)), "42");
    assert_eq!(stringify_tool_output(&json(r#"true"#)), "true");
    assert_eq!(stringify_tool_output(&json(r#"{"a": 1}"#)), r#"{"a":1}"#);
}

#[test]
fn tool_call_arguments_object_edge_cases() {
    assert_eq!(text(&tool_call_arguments_object(&None)), text(&json(r#"{}"#)));
    assert_eq!(text(&tool_call_arguments_object(&Some(json(r#""x""#)))), text(&json(r#""x""#)));
    assert_eq!(text(&tool_call_arguments_object(&Some(json(r#"{"a": 1}"#)))), text(&json(r#"{"a": 1}"#)));
}

#[test]
fn hoist_system_messages_non_string_content() {
    let mut messages = vec![
        ChatMessage {
            role: "system".to_string(),
            content: Some(json(r#"{"key": "value"}"#)),
            tool_call_id: None,
            name: None,
            reasoning_content: None,
            thinking: None,
            tool_calls: None,
        },
        ChatMessage {
            role: "user".to_string(),
            content: Some(json(r#""hello""#)),
            tool_call_id: None,
            name: None,
            reasoning_content: None,
            thinking: None,
            tool_calls: None,
        },
    ];
    hoist_system_messages(&mut messages);
    assert_eq!(messages[0].role, "system");
    let content = messages[0].content.as_ref().unwrap().as_str().unwrap();
    assert!(content.contains("key"));
    assert!(content.contains("value"));
}

#[test]
fn reasoning_item_text_variants() {
    let summary = vec![ReasoningSummaryItem::SummaryText {
        text: "summary".to_string(),
    }];
    let content = Some(vec![
        ReasoningContentItem::ReasoningText {
            text: "reasoning".to_string(),
        },
        ReasoningContentItem::Text {
            text: "text".to_string(),
        },
    ]);
    let result = reasoning_item_text(&summary, &content);
    assert!(result.contains("summary"));
    assert!(result.contains("reasoning"));
    assert!(result.contains("text"));
}

#[test]
fn test_validate_tool_choice_valid_strings() {
    for val in &["auto", "none"] {
        let mut req = base_test_request();
        req.tool_choice = Json::Text(val.to_string());
        assert!(validate_request(&req).is_ok(), "expected {val} to pass");
    }
    let mut req = base_test_request();
    req.tool_choice = Json::Text("required".to_string());
    req.tools = vec![ToolSpec::Function {
        name: "f".to_string(),
        description: "d".to_string(),
        strict: false,
        parameters: json(r#"{}"#),
    }];
    assert!(validate_request(&req).is_ok());
}

#[test]
fn test_validate_tool_choice_valid_object() {
    let mut req = base_test_request();
    req.tool_choice = json(r#"{"type": "function", "function": {"name": "foo"}}"#);
    req.tools = vec![ToolSpec::Function {
        name: "foo".to_string(),
        description: "d".to_string(),
        strict: false,
        parameters: json(r#"{}"#),
    }];
    assert!(validate_request(&req).is_ok());
}

#[test]
fn test_validate_tool_choice_rejects_arbitrary_json() {
    let mut req = base_test_request();
    req.tool_choice = json(r#"42"#);
    assert!(validate_request(&req).is_err());

    let mut req2 = base_test_request();
    req2.tool_choice = json(r#"[1, 2, 3]"#);
    assert!(validate_request(&req2).is_err());

    let mut req3 = base_test_request();
    req3.tool_choice = json(r#"{"type": "unknown"}"#);
    assert!(validate_request(&req3).is_err());

    let mut req4 = base_test_request();
    req4.tool_choice = Json::Text("bogus".to_string());
    assert!(validate_request(&req4).is_err());
}

#[test]
fn test_validate_tool_choice_required_without_tools_rejected() {
    let mut req = base_test_request();
    req.tool_choice = Json::Text("required".to_string());
    req.tools = vec![];
    assert!(validate_request(&req).is_err());
}

#[test]
fn test_append_tool_call_sequential_indices() {
    let mut messages: Vec<ChatMessage> = vec![];
    for i in 0..3 {
        append_tool_call(
            &mut messages,
            format!("call_{i}"),
            format!("fn_{i}"),
            json(r#"{}"#),
            None,
        );
    }
    assert_eq!(messages.len(), 1);
    let calls = messages[0].tool_calls.as_ref().unwrap();
    assert_eq!(calls.len(), 3);
    assert_eq!(calls[0].index, Some(0));
    assert_eq!(calls[1].index, Some(1));
    assert_eq!(calls[2].index, Some(2));
}

#[test]
fn test_append_tool_call_no_merge_into_content_message() {
    let mut messages = vec![ChatMessage {
        role: "assistant".to_string(),
        content: Some(Json::Text("some text".to_string())),
        tool_call_id: None,
        name: None,
        reasoning_content: None,
        thinking: None,
        tool_calls: None,
    }];
    append_tool_call(
        &mut messages,
        "call_1".to_string(),
        "fn_1".to_string(),
        json(r#"{}"#),
        None,
    );
    assert_eq!(messages.len(), 2);
    assert_eq!(
        messages[0].content,
        Some(Json::Text("some text".to_string()))
    );
    assert!(messages[0].tool_calls.is_none());
    assert!(messages[1].tool_calls.is_some());
    assert_eq!(messages[1].tool_calls.as_ref().unwrap()[0].index, Some(0));
}

#[test]
fn test_hoist_preserves_mid_conversation_system_messages() {
    let mut messages = vec![
        ChatMessage {
            role: "system".to_string(),
            content: Some(Json::Text("top".to_string())),
            tool_call_id: None,
            name: None,
            reasoning_content: None,
            thinking: None,
            tool_calls: None,
        },
        ChatMessage {
            role: "user".to_string(),
            content: Some(Json::Text("hello".to_string())),
            tool_call_id: None,
            name: None,
            reasoning_content: None,
            thinking: None,
            tool_calls: None,
        },
        ChatMessage {
            role: "system".to_string(),
            content: Some(Json::Text("mid".to_string())),
            tool_call_id: None,
            name: None,
            reasoning_content: None,
            thinking: None,
            tool_calls: None,
        },
        ChatMessage {
            role: "assistant".to_string(),
            content: Some(Json::Text("hi".to_string())),
            tool_call_id: None,
            name: None,
            reasoning_content: None,
            thinking: None,
            tool_calls: None,
        },
    ];
    hoist_system_messages(&mut messages);
    assert_eq!(messages.len(), 4);
    assert_eq!(messages[0].role, "system");
    assert_eq!(
        messages[0].content.as_ref().unwrap().as_str().unwrap(),
        "top"
    );
    assert_eq!(messages[1].role, "user");
    assert_eq!(messages[2].role, "system");
    assert_eq!(
        messages[2].content.as_ref().unwrap().as_str().unwrap(),
        "mid"
    );
    assert_eq!(messages[3].role, "assistant");
}

#[test]
fn broken_arguments_are_the_fault_of_the_request() {
    assert_eq!(arguments_or_error(Ok(json("1"))).expect("value"), json("1"));
    let error = arguments_or_error(Err("bad".to_string())).expect_err("error");
    assert_eq!(error.message, "invalid JSON tool arguments: bad");
    let mut req = base_test_request();
    req.input = vec![ResponseItem::FunctionCall {
        id: None,
        name: "f".to_string(),
        namespace: None,
        arguments: "{".to_string(),
        call_id: "c".to_string(),
    }];
    let error = lower_request(&req, vec![]).expect_err("error");
    assert!(error.message.starts_with("invalid JSON tool arguments: "), "{error:?}");
}

fn function_tool(name: &str) -> ToolSpec {
    ToolSpec::Function {
        name: name.to_string(),
        description: "d".to_string(),
        strict: false,
        parameters: json(r#"{}"#),
    }
}

#[test]
fn registry_knows_tools_by_their_lower_case_names() {
    let tools = vec![function_tool("AnalyzeImage"), function_tool("Echo")];
    let registry = build_tool_registry(&tools, true).expect("registry");
    assert_eq!(registry.get("analyzeimage"), Some(&ToolKind::ImageAnalysis));
    let registry = build_tool_registry(&tools, false).expect("registry");
    assert!(matches!(registry.get("analyzeimage"), Some(ToolKind::Function { .. })));
    assert!(matches!(registry.get("echo"), Some(ToolKind::Function { .. })));
    assert!(registry.get("Echo").is_none());
    let error = build_tool_registry(&vec![function_tool("a"), function_tool("A")], false)
        .expect_err("duplicate");
    assert_eq!(error.message, "duplicate tool name is not supported: a");
    let lowered = lower_tools(&vec![function_tool("b"), function_tool("a")]).expect("tools");
    assert_eq!(lowered[0].function.name, "a");
}

#[test]
fn default_effort_is_taken_where_the_request_names_none() {
    let req = base_test_request();
    let turn = lower_request_with_options(&req, vec![], "low", false).expect("turn");
    assert_eq!(turn.reasoning_effort.as_deref(), Some("high"));
    let turn = lower_request_with_options(&req, vec![], " ", false).expect("turn");
    assert_eq!(turn.reasoning_effort, None);
}

#[test]
fn hoisting_twice_is_hoisting_once() {
    let message = |role: &str, text: &str| ChatMessage {
        role: role.to_string(),
        content: Some(Json::Text(text.to_string())),
        tool_call_id: None,
        name: None,
        reasoning_content: None,
        thinking: None,
        tool_calls: None,
    };
    let mut messages = vec![message("system", "a"), message("system", "b"), message("user", "c")];
    hoist_system_messages(&mut messages);
    assert_eq!(messages, vec![message("system", "a\n\nb"), message("user", "c")]);
    hoist_system_messages(&mut messages);
    assert_eq!(messages, vec![message("system", "a\n\nb"), message("user", "c")]);
}
