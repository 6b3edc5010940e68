use llmconduit::adapters::chat_to_responses::arguments::extract_json_arguments;
use llmconduit::adapters::chat_to_responses::{
    append_argument_fragment, resolve_call, StreamEmission, StreamState, ToolCallAccumulator,
};
use llmconduit::adapters::responses_to_chat::tools::{ToolKind, ToolRegistry};
use llmconduit::collections::TextMap;
use llmconduit::json::{parse_json, Json};
use llmconduit::models::chat::{
    ChatChunkChoice, ChatCompletionChunk, ChatDelta, ChatFunctionCall, ChatToolCall,
};
use llmconduit::models::responses::{ResponseItem, WebSearchAction};

fn json(text: &str) -> Json {
    parse_json(text).expect("JSON")
}

fn content_chunk(id: &str, text: &str) -> ChatCompletionChunk {
    ChatCompletionChunk {
        id: id.to_string(),
        choices: vec![ChatChunkChoice {
            index: 0,
            delta: ChatDelta {
                content: Some(text.to_string()),
                reasoning_content: None,
                tool_calls: None,
                function_call: None,
                refusal: None,
                extra: Vec::new(),
            },
            finish_reason: None,
            stop_reason: None,
        }],
        usage: None,
    }
}

fn reasoning_chunk(id: &str, text: &str) -> ChatCompletionChunk {
    ChatCompletionChunk {
        id: id.to_string(),
        choices: vec![ChatChunkChoice {
            index: 0,
            delta: ChatDelta {
                content: None,
                reasoning_content: Some(text.to_string()),
                tool_calls: None,
                function_call: None,
                refusal: None,
                extra: Vec::new(),
            },
            finish_reason: None,
            stop_reason: None,
        }],
        usage: None,
    }
}

fn tool_call_chunk(
    id: &str,
    call_id: Option<&str>,
    index: usize,
    name: Option<&str>,
    arguments: Option<&str>,
) -> ChatCompletionChunk {
    ChatCompletionChunk {
        id: id.to_string(),
        choices: vec![ChatChunkChoice {
            index: 0,
            delta: ChatDelta {
                content: None,
                reasoning_content: None,
                tool_calls: Some(vec![ChatToolCall {
                    id: call_id.map(str::to_string),
                    index: Some(index),
                    kind: "function".to_string(),
                    function: ChatFunctionCall {
                        name: name.map(str::to_string),
                        arguments: arguments.map(|s| Json::Text(s.to_string())),
                    },
                }]),
                function_call: None,
                refusal: None,
                extra: Vec::new(),
            },
            finish_reason: None,
            stop_reason: None,
        }],
        usage: None,
    }
}

fn legacy_function_call_chunk(
    id: &str,
    name: Option<&str>,
    arguments: Option<&str>,
) -> ChatCompletionChunk {
    ChatCompletionChunk {
        id: id.to_string(),
        choices: vec![ChatChunkChoice {
            index: 0,
            delta: ChatDelta {
                content: None,
                reasoning_content: None,
                tool_calls: None,
                function_call: Some(ChatFunctionCall {
                    name: name.map(str::to_string),
                    arguments: arguments.map(|s| Json::Text(s.to_string())),
                }),
                refusal: None,
                extra: Vec::new(),
            },
            finish_reason: None,
            stop_reason: None,
        }],
        usage: None,
    }
}

fn simple_registry(entries: Vec<(&str, ToolKind)>) -> ToolRegistry {
    let mut map = TextMap::new();
    for (name, kind) in entries {
        map.insert(name.to_string(), kind);
    }
    ToolRegistry::from_map(map)
}

#[test]
fn apply_chunk_content_delta() {
    let mut state = StreamState::default();
    let emissions = state.apply_chunk(&content_chunk("c1", "hello"));
    assert_eq!(emissions.len(), 3);
    assert!(matches!(&emissions[0], StreamEmission::OutputItemAdded(_)));
    assert!(matches!(&emissions[1], StreamEmission::ContentPartAdded));
    assert!(matches!(&emissions[2], StreamEmission::OutputTextDelta(d) if d == "hello"));
}

#[test]
fn empty_content_delta_is_silent() {
    let mut state = StreamState::default();
    let emissions = state.apply_chunk(&content_chunk("c1", ""));
    assert!(emissions.is_empty());

    let emissions = state.apply_chunk(&content_chunk("c1", "hello"));
    assert_eq!(emissions.len(), 3);
    assert!(matches!(&emissions[0], StreamEmission::OutputItemAdded(_)));
    assert!(matches!(&emissions[1], StreamEmission::ContentPartAdded));
    assert!(matches!(&emissions[2], StreamEmission::OutputTextDelta(d) if d == "hello"));
}

#[test]
fn empty_reasoning_delta_is_silent() {
    let mut state = StreamState::default();
    let emissions = state.apply_chunk(&reasoning_chunk("c1", ""));
    assert!(emissions.is_empty());

    let emissions = state.apply_chunk(&reasoning_chunk("c1", "thinking"));
    assert_eq!(emissions.len(), 3);
    assert!(matches!(
        &emissions[0],
        StreamEmission::ReasoningItemAdded(_)
    ));
    assert!(matches!(
        &emissions[1],
        StreamEmission::ReasoningSummaryPartAdded
    ));
    assert!(matches!(&emissions[2], StreamEmission::ReasoningTextDelta(d) if d == "thinking"));
}

#[test]
fn apply_chunk_interleaved_reasoning_and_content() {
    let mut state = StreamState::default();
    let e1 = state.apply_chunk(&reasoning_chunk("c1", "thinking"));
    assert_eq!(e1.len(), 3);
    assert!(matches!(&e1[0], StreamEmission::ReasoningItemAdded(_)));
    assert!(matches!(&e1[1], StreamEmission::ReasoningSummaryPartAdded));
    assert!(matches!(&e1[2], StreamEmission::ReasoningTextDelta(d) if d == "thinking"));
    let e2 = state.apply_chunk(&content_chunk("c1", "answer"));
    assert_eq!(e2.len(), 3);
    assert!(matches!(&e2[0], StreamEmission::OutputItemAdded(_)));
    assert!(matches!(&e2[1], StreamEmission::ContentPartAdded));
    assert!(matches!(&e2[2], StreamEmission::OutputTextDelta(d) if d == "answer"));
}

#[test]
fn apply_chunk_multi_index_tool_calls() {
    let mut state = StreamState::default();
    state.apply_chunk(&tool_call_chunk(
        "c1",
        Some("call_1"),
        0,
        Some("fn_a"),
        Some("{}"),
    ));
    state.apply_chunk(&tool_call_chunk(
        "c1",
        Some("call_2"),
        1,
        Some("fn_b"),
        Some("{}"),
    ));
    let registry = simple_registry(vec![
        (
            "fn_a",
            ToolKind::Function {
                public_name: "fn_a".to_string(),
                namespace: None,
            },
        ),
        (
            "fn_b",
            ToolKind::Function {
                public_name: "fn_b".to_string(),
                namespace: None,
            },
        ),
    ]);
    let finalized = state.finalize(&registry).unwrap();
    assert_eq!(finalized.tool_calls.len(), 2);
}

#[test]
fn finalize_missing_tool_name() {
    let mut state = StreamState::default();
    state.apply_chunk(&tool_call_chunk("c1", Some("call_1"), 0, None, Some("{}")));
    let registry = simple_registry(vec![]);
    let result = state.finalize(&registry);
    assert!(result.is_err());
    assert!(
        result
            .unwrap_err().message
            .contains("missing function name")
    );
}

#[test]
fn finalize_unknown_tool() {
    let mut state = StreamState::default();
    state.apply_chunk(&tool_call_chunk(
        "c1",
        Some("call_1"),
        0,
        Some("unknown_fn"),
        Some("{}"),
    ));
    let registry = simple_registry(vec![]);
    let result = state.finalize(&registry);
    assert!(result.is_err());
    assert!(result.unwrap_err().message.contains("unknown tool"));
}

#[test]
fn finalize_empty_arguments() {
    let mut state = StreamState::default();
    let emissions = state.apply_chunk(&tool_call_chunk(
        "c1",
        Some("call_1"),
        0,
        Some("echo"),
        Some(""),
    ));
    assert!(emissions.is_empty());
    let registry = simple_registry(vec![(
        "echo",
        ToolKind::Function {
            public_name: "echo".to_string(),
            namespace: None,
        },
    )]);
    let finalized = state.finalize(&registry).unwrap();
    assert_eq!(finalized.tool_calls.len(), 1);
    assert_eq!(finalized.tool_calls[0].arguments, json(r#"{}"#));
}

#[test]
fn finalize_invalid_json_arguments() {
    let mut state = StreamState::default();
    state.apply_chunk(&tool_call_chunk(
        "c1",
        Some("call_1"),
        0,
        Some("echo"),
        Some("not json{"),
    ));
    let registry = simple_registry(vec![(
        "echo",
        ToolKind::Function {
            public_name: "echo".to_string(),
            namespace: None,
        },
    )]);
    let result = state.finalize(&registry);
    assert!(result.is_err());
    assert!(result.unwrap_err().message.contains("failed to parse"));
}

#[test]
fn finalize_invalid_local_shell_arguments() {
    let mut state = StreamState::default();
    state.apply_chunk(&tool_call_chunk(
        "c1",
        Some("call_1"),
        0,
        Some("local_shell"),
        Some(r#"{"bad":"schema"}"#),
    ));
    let registry = simple_registry(vec![("local_shell", ToolKind::LocalShell)]);
    let result = state.finalize(&registry);
    assert!(result.is_err());
    assert!(
        result
            .unwrap_err().message
            .contains("invalid upstream local_shell")
    );
}

#[test]
fn finalize_custom_tool_input_extraction() {
    let mut state = StreamState::default();
    state.apply_chunk(&tool_call_chunk(
        "c1",
        Some("call_1"),
        0,
        Some("my_tool"),
        Some(r#"{"input":"code here"}"#),
    ));
    let registry = simple_registry(vec![(
        "my_tool",
        ToolKind::Custom {
            public_name: "my_tool".to_string(),
        },
    )]);
    let finalized = state.finalize(&registry).unwrap();
    assert_eq!(finalized.tool_calls.len(), 1);
    match &finalized.tool_calls[0].public_item {
        ResponseItem::CustomToolCall { input, .. } => {
            assert_eq!(input, "code here");
        }
        other => panic!("expected CustomToolCall, got {other:?}"),
    }
}

#[test]
fn apply_chunk_emits_function_call_arguments_delta() {
    let mut state = StreamState::default();
    let emissions = state.apply_chunk(&tool_call_chunk(
        "c1",
        Some("call_1"),
        0,
        Some("echo"),
        Some(r#"{"val"#),
    ));
    let deltas: Vec<_> = emissions
        .iter()
        .filter_map(|e| match e {
            StreamEmission::FunctionCallArgumentsDelta { call_id, delta, .. } => {
                Some((call_id.clone(), delta.clone()))
            }
            _ => None,
        })
        .collect();
    assert_eq!(deltas.len(), 1);
    assert_eq!(deltas[0].0, "call_1");
    assert_eq!(deltas[0].1, r#"{"val"#);

    let emissions2 =
        state.apply_chunk(&tool_call_chunk("c1", None, 0, None, Some(r#"ue":"hi"}"#)));
    let deltas2: Vec<_> = emissions2
        .iter()
        .filter_map(|e| match e {
            StreamEmission::FunctionCallArgumentsDelta { call_id, delta, .. } => {
                Some((call_id.clone(), delta.clone()))
            }
            _ => None,
        })
        .collect();
    assert_eq!(deltas2.len(), 1);
    assert_eq!(deltas2[0].1, r#"ue":"hi"}"#);
}

#[test]
fn tool_call_arguments_before_id_are_emitted() {
    let mut state = StreamState::default();
    let emissions = state.apply_chunk(&tool_call_chunk(
        "c1",
        None,
        0,
        Some("echo"),
        Some(r#"{"value":"hi"}"#),
    ));
    let deltas: Vec<_> = emissions
        .iter()
        .filter_map(|e| match e {
            StreamEmission::FunctionCallArgumentsDelta { call_id, delta, .. } => {
                Some((call_id.clone(), delta.clone()))
            }
            _ => None,
        })
        .collect();
    assert_eq!(deltas.len(), 1);
    assert!(deltas[0].0.starts_with("call_"));
    assert_eq!(deltas[0].1, r#"{"value":"hi"}"#);

    let registry = simple_registry(vec![(
        "echo",
        ToolKind::Function {
            public_name: "echo".to_string(),
            namespace: None,
        },
    )]);
    let finalized = state.finalize(&registry).unwrap();
    assert!(matches!(
        &finalized.tool_calls[0].public_item,
        ResponseItem::FunctionCall { call_id, .. } if call_id == &deltas[0].0
    ));
    assert_eq!(
        finalized.tool_calls[0].arguments,
        json(r#"{"value": "hi"}"#)
    );
}

#[test]
fn legacy_function_call_arguments_are_emitted() {
    let mut state = StreamState::default();
    state.apply_chunk(&legacy_function_call_chunk("c1", Some("echo"), None));
    let emissions =
        state.apply_chunk(&legacy_function_call_chunk("c1", None, Some(r#"{"val"#)));
    let deltas: Vec<_> = emissions
        .iter()
        .filter_map(|e| match e {
            StreamEmission::FunctionCallArgumentsDelta { call_id, delta, .. } => {
                Some((call_id.clone(), delta.clone()))
            }
            _ => None,
        })
        .collect();
    assert_eq!(deltas.len(), 1);
    assert!(deltas[0].0.starts_with("call_"));
    assert_eq!(deltas[0].1, r#"{"val"#);

    let emissions2 = state.apply_chunk(&legacy_function_call_chunk(
        "c1",
        None,
        Some(r#"ue":"hi"}"#),
    ));
    let deltas2: Vec<_> = emissions2
        .iter()
        .filter_map(|e| match e {
            StreamEmission::FunctionCallArgumentsDelta { call_id, delta, .. } => {
                Some((call_id.clone(), delta.clone()))
            }
            _ => None,
        })
        .collect();
    assert_eq!(deltas2.len(), 1);
    assert_eq!(deltas2[0].0, deltas[0].0);
    assert_eq!(deltas2[0].1, r#"ue":"hi"}"#);

    let registry = simple_registry(vec![(
        "echo",
        ToolKind::Function {
            public_name: "echo".to_string(),
            namespace: None,
        },
    )]);
    let finalized = state.finalize(&registry).unwrap();
    assert!(matches!(
        &finalized.tool_calls[0].public_item,
        ResponseItem::FunctionCall { call_id, .. } if call_id == &deltas[0].0
    ));
    assert_eq!(
        finalized.tool_calls[0].arguments,
        json(r#"{"value": "hi"}"#)
    );
}

#[test]
fn append_argument_fragment_non_string() {
    let mut buffer = String::new();
    append_argument_fragment(&mut buffer, &json(r#"42"#));
    assert_eq!(buffer, "42");

    let mut buffer2 = String::new();
    append_argument_fragment(&mut buffer2, &json(r#"true"#));
    assert_eq!(buffer2, "true");
}

#[test]
fn test_content_part_added_before_first_delta() {
    let mut state = StreamState::default();
    let emissions = state.apply_chunk(&content_chunk("c1", "hello"));
    assert!(emissions.len() >= 3);
    assert!(matches!(&emissions[0], StreamEmission::OutputItemAdded(_)));
    assert!(matches!(&emissions[1], StreamEmission::ContentPartAdded));
    assert!(matches!(&emissions[2], StreamEmission::OutputTextDelta(d) if d == "hello"));
}

#[test]
fn test_content_part_not_duplicated() {
    let mut state = StreamState::default();
    let e1 = state.apply_chunk(&content_chunk("c1", "hello"));
    let e2 = state.apply_chunk(&content_chunk("c1", " world"));
    let part_added_count = e1
        .iter()
        .chain(e2.iter())
        .filter(|e| matches!(e, StreamEmission::ContentPartAdded))
        .count();
    assert_eq!(part_added_count, 1);
}

#[test]
fn test_reasoning_part_added_before_first_delta() {
    let mut state = StreamState::default();
    let emissions = state.apply_chunk(&reasoning_chunk("c1", "thinking"));
    assert!(emissions.len() >= 3);
    assert!(matches!(
        &emissions[0],
        StreamEmission::ReasoningItemAdded(_)
    ));
    assert!(matches!(
        &emissions[1],
        StreamEmission::ReasoningSummaryPartAdded
    ));
    assert!(matches!(&emissions[2], StreamEmission::ReasoningTextDelta(d) if d == "thinking"));
}

#[test]
fn test_reasoning_delta_alias_emitted() {
    let mut state = StreamState::default();
    let chunk = ChatCompletionChunk {
        id: "c1".to_string(),
        choices: vec![ChatChunkChoice {
            index: 0,
            delta: ChatDelta {
                content: None,
                reasoning_content: None,
                tool_calls: None,
                function_call: None,
                refusal: None,
                extra: vec![(
                    "reasoning".to_string(),
                    json(r#""hidden step""#),
                )],
            },
            finish_reason: None,
            stop_reason: None,
        }],
        usage: None,
    };

    let emissions = state.apply_chunk(&chunk);

    assert!(
        emissions
            .iter()
            .any(|emission| matches!(emission, StreamEmission::ReasoningTextDelta(delta) if delta == "hidden step"))
    );
}

#[test]
fn nested_thinking_object_emits_reasoning_and_signature_delta() {
    let mut state = StreamState::default();
    let chunk = ChatCompletionChunk {
        id: "c1".to_string(),
        choices: vec![ChatChunkChoice {
            index: 0,
            delta: ChatDelta {
                content: None,
                reasoning_content: None,
                tool_calls: None,
                function_call: None,
                refusal: None,
                extra: vec![(
                    "thinking".to_string(),
                    json(r#"{ "content": "hidden step", "signature": "sig_123" }"#),
                )],
            },
            finish_reason: None,
            stop_reason: None,
        }],
        usage: None,
    };

    let emissions = state.apply_chunk(&chunk);

    assert!(
        emissions
            .iter()
            .any(|emission| matches!(emission, StreamEmission::ReasoningTextDelta(delta) if delta == "hidden step"))
    );
    assert!(
        emissions
            .iter()
            .any(|emission| matches!(emission, StreamEmission::ReasoningSignatureDelta(signature) if signature == "sig_123"))
    );
    let finalized = state.finalize(&simple_registry(vec![])).unwrap();
    assert!(matches!(
        finalized.reasoning_item,
        Some(ResponseItem::Reasoning {
            encrypted_content: Some(ref signature),
            ..
        }) if signature == "sig_123"
    ));
    let internal = finalized
        .internal_assistant_message
        .expect("internal assistant message");
    assert_eq!(internal.reasoning_content.as_deref(), Some("hidden step"));
    let thinking = internal.thinking.as_ref().expect("signed thinking");
    assert_eq!(thinking.content, "hidden step");
    assert_eq!(thinking.signature.as_deref(), Some("sig_123"));
}

#[test]
fn test_refusal_delta_emitted() {
    let mut state = StreamState::default();
    let chunk = ChatCompletionChunk {
        id: "c1".to_string(),
        choices: vec![ChatChunkChoice {
            index: 0,
            delta: ChatDelta {
                content: None,
                reasoning_content: None,
                tool_calls: None,
                function_call: None,
                refusal: Some("I cannot help".to_string()),
                extra: Vec::new(),
            },
            finish_reason: None,
            stop_reason: None,
        }],
        usage: None,
    };
    let emissions = state.apply_chunk(&chunk);
    assert_eq!(emissions.len(), 1);
    assert!(matches!(&emissions[0], StreamEmission::RefusalDelta(t) if t == "I cannot help"));
    assert_eq!(state.refusal_text(), "I cannot help");
}

#[test]
fn test_finish_reason_captured() {
    let mut state = StreamState::default();
    let chunk = ChatCompletionChunk {
        id: "c1".to_string(),
        choices: vec![ChatChunkChoice {
            index: 0,
            delta: ChatDelta {
                content: Some("hi".to_string()),
                reasoning_content: None,
                tool_calls: None,
                function_call: None,
                refusal: None,
                extra: Vec::new(),
            },
            finish_reason: Some("length".to_string()),
            stop_reason: None,
        }],
        usage: None,
    };
    state.apply_chunk(&chunk);
    let registry = simple_registry(vec![]);
    let finalized = state.finalize(&registry).unwrap();
    assert_eq!(finalized.finish_reason, Some("length".to_string()));
}

#[test]
fn test_stop_sequence_captured_from_string_stop_reason() {
    let mut state = StreamState::default();
    let chunk = ChatCompletionChunk {
        id: "c1".to_string(),
        choices: vec![ChatChunkChoice {
            index: 0,
            delta: ChatDelta {
                content: Some("hi".to_string()),
                reasoning_content: None,
                tool_calls: None,
                function_call: None,
                refusal: None,
                extra: Vec::new(),
            },
            finish_reason: Some("stop".to_string()),
            stop_reason: Some(json(r#""</block>""#)),
        }],
        usage: None,
    };
    state.apply_chunk(&chunk);
    let registry = simple_registry(vec![]);
    let finalized = state.finalize(&registry).unwrap();
    assert_eq!(finalized.stop_sequence, Some("</block>".to_string()));
}

#[test]
fn test_integer_stop_reason_does_not_become_stop_sequence() {
    let mut state = StreamState::default();
    let chunk = ChatCompletionChunk {
        id: "c1".to_string(),
        choices: vec![ChatChunkChoice {
            index: 0,
            delta: ChatDelta {
                content: Some("hi".to_string()),
                reasoning_content: None,
                tool_calls: None,
                function_call: None,
                refusal: None,
                extra: Vec::new(),
            },
            finish_reason: Some("stop".to_string()),
            stop_reason: Some(json(r#"163586"#)),
        }],
        usage: None,
    };
    state.apply_chunk(&chunk);
    let registry = simple_registry(vec![]);
    let finalized = state.finalize(&registry).unwrap();
    assert_eq!(finalized.stop_sequence, None);
}

#[test]
fn extract_json_arguments_strips_kimi_tool_call_sentinel() {
    // Exact bytes observed from vLLM Kimi-K2.6 under forced tool_choice.
    let raw = " <|tool_calls_section_begin|> {\"query\":\"current weather Boppard Germany\"}";
    let cleaned = extract_json_arguments(raw);
    let v = parse_json(cleaned).expect("must parse after cleaning");
    assert_eq!(v.get_str("query"), Some("current weather Boppard Germany"));
}

#[test]
fn extract_json_arguments_handles_clean_and_padded_input() {
    assert_eq!(extract_json_arguments("{\"a\":1}"), "{\"a\":1}");
    assert_eq!(extract_json_arguments("  {\"a\":1}  ").trim(), "{\"a\":1}");
    // Trailing sentinel after the object is ignored too.
    assert_eq!(
        extract_json_arguments("{\"a\":1} <|tool_calls_section_end|>"),
        "{\"a\":1}"
    );
}

#[test]
fn extract_json_arguments_is_string_aware() {
    // Braces inside string literals must not end the scan early.
    let raw = "<|x|> {\"q\":\"a{b}c \\\" }\"}";
    let cleaned = extract_json_arguments(raw);
    let v = parse_json(cleaned).expect("string-aware parse");
    assert_eq!(v.get_str("q"), Some("a{b}c \" }"));
}

#[test]
fn extract_json_arguments_supports_array_payloads() {
    let raw = "<|tool_call_begin|> [{\"a\":1},{\"b\":2}] trailing";
    let cleaned = extract_json_arguments(raw);
    let v = parse_json(cleaned).expect("array parse");
    assert_eq!(v.as_array().map(|items| items.len()), Some(2));
}

#[test]
fn extract_json_arguments_without_json_returns_trimmed() {
    // No JSON value -> trimmed input, which still surfaces a real error
    // at the call site (we do not silently swallow genuinely-broken args).
    assert_eq!(extract_json_arguments("  not json  "), "not json");
}

#[test]
fn finalize_tolerates_kimi_sentinel_in_web_search_arguments() {
    // End-to-end through finalize(): the leaked sentinel must no longer
    // produce `failed to parse upstream tool arguments`.
    let mut state = StreamState::default();
    state.apply_chunk(&tool_call_chunk(
        "c1",
        Some("call_ws"),
        0,
        Some("web_search"),
        Some(" <|tool_calls_section_begin|> {\"query\":\"boppard weather\"}"),
    ));
    let registry = simple_registry(vec![("web_search", ToolKind::WebSearch)]);
    let finalized = state
        .finalize(&registry)
        .expect("kimi sentinel must be tolerated");
    let call = &finalized.tool_calls[0];
    match &call.public_item {
        ResponseItem::WebSearchCall {
            action: Some(WebSearchAction::Search { query, .. }),
            ..
        } => assert_eq!(query.as_deref(), Some("boppard weather")),
        other => panic!("expected web_search_call, got {other:?}"),
    }
}

#[test]
fn calls_are_resolved_with_what_was_read_from_their_arguments() {
    let registry = simple_registry(vec![
        ("search", ToolKind::WebSearch),
        (
            "echo",
            ToolKind::Function { public_name: "Echo".to_string(), namespace: None },
        ),
    ]);
    let call = |name: &str, text: &str| ToolCallAccumulator {
        id: None,
        name: Some(name.to_string()),
        arguments_text: text.to_string(),
    };
    let resolved = resolve_call(&call("SEARCH", "x"), &registry, &Ok(json(r#"{"query": "q"}"#)), "1")
        .expect("search");
    assert_eq!(
        resolved.public_item,
        ResponseItem::WebSearchCall {
            id: Some("call_1".to_string()),
            status: Some("completed".to_string()),
            action: Some(WebSearchAction::Search { query: Some("q".to_string()), queries: None }),
        }
    );
    let resolved = resolve_call(&call("echo", " "), &registry, &Err("ignored".to_string()), "2")
        .expect("blank arguments");
    assert_eq!(resolved.arguments, json("{}"));
    let error = resolve_call(&call("echo", "x"), &registry, &Err("bad".to_string()), "3")
        .expect_err("broken arguments");
    assert_eq!(error.message, "failed to parse upstream tool arguments for echo: bad");
}

#[test]
fn streamed_text_is_gathered() {
    let mut state = StreamState::default();
    let mut streamed = String::new();
    for text in ["Hel", "lo", " world"] {
        for emission in state.apply_chunk(&content_chunk("c1", text)) {
            if let StreamEmission::OutputTextDelta(delta) = emission {
                streamed.push_str(&delta);
            }
        }
    }
    let turn = state.finalize(&simple_registry(vec![])).expect("turn");
    let message = turn.internal_assistant_message.expect("message");
    assert_eq!(message.content, Some(Json::Text("Hello world".to_string())));
    assert_eq!(streamed, "Hello world");
}

#[test]
fn unclosed_brackets_before_a_value_are_ignored() {
    assert_eq!(extract_json_arguments(r#"[note {"a":1}"#), r#"{"a":1}"#);
    assert_eq!(extract_json_arguments(r#"{ [1] "#), "[1]");
    assert_eq!(extract_json_arguments(" { [ "), "{ [");
    assert_eq!(extract_json_arguments(r#"[{"a":1} x"#), r#"{"a":1}"#);
    for raw in [r#"x [1, {"b": "]"}] y"#, " plain ", "[note", r#"{"q":"}"}"#] {
        let once = extract_json_arguments(raw);
        assert_eq!(extract_json_arguments(once), once);
    }
}

#[test]
fn whole_turn_holds_what_was_streamed() {
    let mut state = StreamState::default();
    let chunks = [
        reasoning_chunk("c1", "because"),
        content_chunk("c1", "Hel"),
        tool_call_chunk("c1", Some("call_b"), 3, Some("look"), Some("{\"q\":")),
        content_chunk("c1", "lo"),
        tool_call_chunk("c1", Some("call_a"), 1, Some("look"), Some("{}")),
        reasoning_chunk("c1", " of"),
        tool_call_chunk("c1", None, 3, None, Some("1}")),
    ];
    let emissions: Vec<StreamEmission> =
        chunks.iter().flat_map(|chunk| state.apply_chunk(chunk)).collect();
    let place = |wanted: fn(&StreamEmission) -> bool| {
        let places: Vec<usize> = (0..emissions.len()).filter(|k| wanted(&emissions[*k])).collect();
        places
    };
    let items = place(|e| matches!(e, StreamEmission::OutputItemAdded(_)));
    let parts = place(|e| matches!(e, StreamEmission::ContentPartAdded));
    let texts = place(|e| matches!(e, StreamEmission::OutputTextDelta(_)));
    assert_eq!((items.len(), parts.len(), texts.len()), (1, 1, 2));
    assert_eq!((parts[0], texts[0]), (items[0] + 1, items[0] + 2));
    let thoughts = place(|e| matches!(e, StreamEmission::ReasoningItemAdded(_)));
    let summaries = place(|e| matches!(e, StreamEmission::ReasoningSummaryPartAdded));
    let reasons = place(|e| matches!(e, StreamEmission::ReasoningTextDelta(_)));
    assert_eq!((thoughts.len(), summaries.len(), reasons.len()), (1, 1, 2));
    assert_eq!((summaries[0], reasons[0]), (thoughts[0] + 1, thoughts[0] + 2));

    let announced = match &emissions[items[0]] {
        StreamEmission::OutputItemAdded(ResponseItem::Message { id, .. }) => id.clone(),
        other => panic!("expected a message, got {other:?}"),
    };
    let turn = state
        .finalize(&simple_registry(vec![(
            "look",
            ToolKind::Function { public_name: "look".to_string(), namespace: None },
        )]))
        .expect("turn");
    match turn.message_item.expect("message") {
        ResponseItem::Message { id, .. } => assert_eq!(id, announced),
        other => panic!("expected a message, got {other:?}"),
    }
    let ids: Vec<Option<String>> =
        turn.tool_calls.iter().map(|call| call.internal_call.id.clone()).collect();
    assert_eq!(ids, vec![Some("call_a".to_string()), Some("call_b".to_string())]);
    let streamed: String = emissions
        .iter()
        .map(|emission| match emission {
            StreamEmission::FunctionCallArgumentsDelta { call_id, delta, .. }
                if call_id == "call_b" =>
            {
                delta.as_str()
            }
            _ => "",
        })
        .collect();
    assert_eq!(streamed, "{\"q\":1}");
}
