use llmconduit::adapters::anthropic_to_responses::{
    convert_request, convert_tool_choice, image_source_to_content_item,
};
use llmconduit::adapters::anthropic_to_responses::prompt::{join_filtered_lines, InjectedLine};
use llmconduit::json::{find_entry, parse_json, render_json, Json, JsonNumber};
use llmconduit::models::anthropic::{
    AnthropicContent, AnthropicContentBlock, AnthropicImageSource, AnthropicMessage,
    AnthropicRequest, AnthropicSystemContent, AnthropicTextBlock, AnthropicThinking,
    AnthropicTool, AnthropicToolChoice,
};
use llmconduit::models::responses::{ContentItem, ReasoningContentItem, ResponseItem, ToolSpec};

fn json(text: &str) -> Json {
    parse_json(text).expect("JSON")
}

fn number(text: &str) -> JsonNumber {
    match json(text) {
        Json::Num(number) => number,
        _ => panic!("not a number: {text}"),
    }
}

fn same(one: &Json, other: &Json) -> bool {
    render_json(one) == render_json(other)
}

#[test]
fn converts_simple_text_request() {
    let request = AnthropicRequest {
        model: "3-5-sonnet-20241022".to_string(),
        max_tokens: Some(1024),
        system: Some(AnthropicSystemContent::Text(
            "x-anthropic-billing-header: nonce\nBe helpful".to_string(),
        )),
        messages: vec![AnthropicMessage {
            role: "user".to_string(),
            content: AnthropicContent::Text("Today's date is 2026-04-21.\nHello".to_string()),
        }],
        tools: None,
        tool_choice: None,
        stream: true,
        temperature: Some(number("0.2")),
        top_p: Some(number("0.7")),
        top_k: None,
        stop_sequences: None,
        metadata: Some(json(r#"{"source": "anthropic"}"#)),
        thinking: None,
        output_config: None,
    };

    let result = convert_request(request).expect("convert");
    assert_eq!(result.model, "3-5-sonnet-20241022");
    assert_eq!(result.instructions, "Be helpful");
    assert_eq!(result.max_output_tokens, Some(1024));
    assert_eq!(result.temperature, Some(number("0.2")));
    assert_eq!(result.top_p, Some(number("0.7")));
    assert_eq!(
        result
            .metadata
            .as_ref()
            .and_then(|metadata| find_entry(metadata, "source")),
        Some(&json(r#""anthropic""#))
    );
    assert_eq!(result.input.len(), 1);
    assert!(matches!(
        &result.input[0],
        ResponseItem::Message { role, content, .. }
            if role == "user"
                && matches!(&content[0], ContentItem::InputText { text } if text == "Hello")
    ));
    assert_eq!(result.stream, true);
}

#[test]
fn lifts_claude_code_skill_listing_out_of_user_turns() {
    let skill_listing = "- deep-research: Deep research harness. Use when the user wants research.\n- update-config: Configure settings. Use when the user asks to update config.\n- security-review: Review a diff for security problems. Invoke with the request.";
    let request = AnthropicRequest {
        model: "3-5-sonnet-20241022".to_string(),
        max_tokens: Some(1024),
        system: Some(AnthropicSystemContent::Text(
            "Base instructions.".to_string(),
        )),
        messages: vec![
            AnthropicMessage {
                role: "user".to_string(),
                content: AnthropicContent::Text("hello".to_string()),
            },
            AnthropicMessage {
                role: "user".to_string(),
                content: AnthropicContent::Text(skill_listing.to_string()),
            },
        ],
        tools: None,
        tool_choice: None,
        stream: false,
        temperature: None,
        top_p: None,
        top_k: None,
        stop_sequences: None,
        metadata: None,
        thinking: None,
        output_config: None,
    };

    let result = convert_request(request).expect("convert");
    // In-place: the skill listing stays a guarded user turn at its
    // original position instead of rewriting the instruction head.
    assert_eq!(result.instructions, "Base instructions.");
    assert_eq!(result.input.len(), 2);
    assert!(matches!(
        &result.input[0],
        ResponseItem::Message { role, content, .. }
            if role == "user"
                && matches!(&content[0], ContentItem::InputText { text } if text == "hello")
    ));
    assert!(matches!(
        &result.input[1],
        ResponseItem::Message { role, content, .. }
            if role == "user"
                && matches!(&content[0], ContentItem::InputText { text }
                    if text.contains("skill listing")
                        && text.contains("deep-research")
                        && text.contains("Do not quote"))
    ));
}

#[test]
fn lifts_claude_code_skill_listing_out_of_system_history_turns() {
    let skill_listing = "The following skills are available for use with the Skill tool:\n\n- deep-research: Deep research harness. Use when the user wants research.\n- update-config: Configure settings. Use when the user asks to update config.\n- security-review: Review a diff for security problems. Invoke with the request.";
    let request = AnthropicRequest {
        model: "3-5-sonnet-20241022".to_string(),
        max_tokens: Some(1024),
        system: Some(AnthropicSystemContent::Text(
            "Base instructions.".to_string(),
        )),
        messages: vec![
            AnthropicMessage {
                role: "user".to_string(),
                content: AnthropicContent::Text("hello".to_string()),
            },
            AnthropicMessage {
                role: "system".to_string(),
                content: AnthropicContent::Text(skill_listing.to_string()),
            },
        ],
        tools: None,
        tool_choice: None,
        stream: false,
        temperature: None,
        top_p: None,
        top_k: None,
        stop_sequences: None,
        metadata: None,
        thinking: None,
        output_config: None,
    };

    let result = convert_request(request).expect("convert");
    // System text stays the sole instruction source; the skill listing is
    // kept in place (position-stable) so mid-session reminders cannot
    // rewrite the prompt head and break prefix caching.
    assert_eq!(result.instructions, "Base instructions.");
    assert!(!result.instructions.contains("skill listing"));
    assert_eq!(result.input.len(), 2);
    assert!(matches!(
        &result.input[0],
        ResponseItem::Message { role, content, .. }
            if role == "user"
                && matches!(&content[0], ContentItem::InputText { text } if text == "hello")
    ));
    assert!(matches!(
        &result.input[1],
        ResponseItem::Message { role, content, .. }
            if role == "user"
                && matches!(&content[0], ContentItem::InputText { text }
                    if text.contains("skill listing")
                        && text.contains("deep-research")
                        && text.contains("Do not quote"))
    ));
}

#[test]
fn lifts_claude_code_tagged_metadata_out_of_user_turns() {
    let request = AnthropicRequest {
        model: "3-5-sonnet-20241022".to_string(),
        max_tokens: Some(1024),
        system: None,
        messages: vec![
            AnthropicMessage {
                role: "user".to_string(),
                content: AnthropicContent::Text(
                    "<local-command-caveat>Do not answer local command output.</local-command-caveat>"
                        .to_string(),
                ),
            },
            AnthropicMessage {
                role: "user".to_string(),
                content: AnthropicContent::Text(
                    "<command-name>/clear</command-name>\n<command-message>clear</command-message>\n<command-args></command-args>"
                        .to_string(),
                ),
            },
            AnthropicMessage {
                role: "user".to_string(),
                content: AnthropicContent::Text(
                    "<system-reminder>Prefer concise answers.</system-reminder>\nhello"
                        .to_string(),
                ),
            },
        ],
        tools: None,
        tool_choice: None,
        stream: false,
        temperature: None,
        top_p: None,
        top_k: None,
        stop_sequences: None,
        metadata: None,
        thinking: None,
        output_config: None,
    };

    let result = convert_request(request).expect("convert");
    // Nothing is hoisted into instructions anymore: guarded context stays
    // in place, /clear command echoes are still dropped entirely.
    assert_eq!(result.instructions, "");
    let texts: Vec<&str> = result
        .input
        .iter()
        .filter_map(|item| match item {
            ResponseItem::Message { role, content, .. } if role == "user" => {
                match &content[0] {
                    ContentItem::InputText { text } => Some(text.as_str()),
                    _ => None,
                }
            }
            _ => None,
        })
        .collect();
    assert_eq!(texts.len(), 3);
    assert!(texts[0].contains("local command caveat"));
    assert!(texts[0].contains("Do not answer local command output."));
    assert!(texts[1].contains("system reminder"));
    assert!(texts[1].contains("Prefer concise answers."));
    assert_eq!(texts[2], "hello");
    assert!(texts.iter().all(|t| !t.contains("<command-name>")));
}

#[test]
fn converts_stop_sequences_to_extra_body_stop() {
    let request = AnthropicRequest {
        model: "3-5-sonnet-20241022".to_string(),
        max_tokens: Some(64),
        system: None,
        messages: vec![AnthropicMessage {
            role: "user".to_string(),
            content: AnthropicContent::Text("Decide.".to_string()),
        }],
        tools: None,
        tool_choice: None,
        stream: false,
        temperature: None,
        top_p: None,
        top_k: None,
        stop_sequences: Some(vec!["</decision>".to_string()]),
        metadata: None,
        thinking: None,
        output_config: None,
    };

    let result = convert_request(request).expect("convert");
    assert_eq!(result.stop, None);
    assert_eq!(find_entry(&result.extra_body, "stop"), Some(&json(r#"["</decision>"]"#)));
}

#[test]
fn converts_output_config_json_schema_to_text_format() {
    let schema = || json(r#"{ "type": "object", "additionalProperties": false, "properties": { "title": { "type": "string" } }, "required": ["title"] }"#);
    let request = AnthropicRequest {
        model: "haiku-4-5-20251001".to_string(),
        max_tokens: Some(32000),
        system: Some(AnthropicSystemContent::Blocks(vec![
            AnthropicTextBlock::Text {
                text: "Return JSON with a single \"title\" field.".to_string(),
            },
        ])),
        messages: vec![AnthropicMessage {
            role: "user".to_string(),
            content: AnthropicContent::Text("Build a web app.".to_string()),
        }],
        tools: Some(Vec::new()),
        tool_choice: None,
        stream: true,
        temperature: Some(number("1.0")),
        top_p: None,
        top_k: None,
        stop_sequences: None,
        metadata: None,
        thinking: None,
        output_config: Some(json(&format!(
            r#"{{ "format": {{ "type": "json_schema", "schema": {} }} }}"#,
            render_json(&schema())
        ))),
    };

    let result = convert_request(request).expect("convert");
    let format = result
        .text
        .as_ref()
        .and_then(|text| text.format.as_ref())
        .expect("text format");
    assert_eq!(format.kind, "json_schema");
    assert_eq!(format.name, "response");
    assert!(format.strict);
    assert!(same(&format.schema, &schema()));
}

#[test]
fn converts_output_config_effort_to_reasoning() {
    let request = AnthropicRequest {
        model: "opus-4-5-20251101".to_string(),
        max_tokens: Some(32000),
        system: None,
        messages: vec![AnthropicMessage {
            role: "user".to_string(),
            content: AnthropicContent::Text("Think deeply.".to_string()),
        }],
        tools: None,
        tool_choice: None,
        stream: true,
        temperature: None,
        top_p: None,
        top_k: None,
        stop_sequences: None,
        metadata: None,
        thinking: Some(AnthropicThinking::Adaptive {
            budget_tokens: None,
        }),
        output_config: Some(json(r#"{ "effort": "xhigh" }"#)),
    };

    let result = convert_request(request).expect("convert");
    assert_eq!(
        result.reasoning.as_ref().unwrap().effort.as_deref(),
        Some("max")
    );
}

#[test]
fn adaptive_thinking_enables_reasoning_without_inventing_effort() {
    let request = AnthropicRequest {
        model: "opus-4-5-20251101".to_string(),
        max_tokens: Some(32000),
        system: None,
        messages: vec![AnthropicMessage {
            role: "user".to_string(),
            content: AnthropicContent::Text("Think deeply.".to_string()),
        }],
        tools: None,
        tool_choice: None,
        stream: true,
        temperature: None,
        top_p: None,
        top_k: None,
        stop_sequences: None,
        metadata: None,
        thinking: Some(AnthropicThinking::Adaptive {
            budget_tokens: None,
        }),
        output_config: None,
    };

    let result = convert_request(request).expect("convert");
    assert!(result.reasoning.is_some());
    assert_eq!(result.reasoning.as_ref().unwrap().effort, None);
}

#[test]
fn converts_tool_use_and_result_history() {
    let request = AnthropicRequest {
        model: "3-5-sonnet-20241022".to_string(),
        max_tokens: Some(1024),
        system: None,
        messages: vec![
            AnthropicMessage {
                role: "user".to_string(),
                content: AnthropicContent::Text("What is the weather?".to_string()),
            },
            AnthropicMessage {
                role: "assistant".to_string(),
                content: AnthropicContent::Blocks(vec![
                    AnthropicContentBlock::Text {
                        text: "Let me check.".to_string(),
                    },
                    AnthropicContentBlock::ToolUse {
                        id: "toolu_1".to_string(),
                        name: "get_weather".to_string(),
                        input: json(r#"{"location": "Seattle"}"#),
                    },
                ]),
            },
            AnthropicMessage {
                role: "user".to_string(),
                content: AnthropicContent::Blocks(vec![AnthropicContentBlock::ToolResult {
                    tool_use_id: "toolu_1".to_string(),
                    content: Some(AnthropicContent::Text("72°F sunny".to_string())),
                    is_error: None,
                }]),
            },
        ],
        tools: None,
        tool_choice: None,
        stream: true,
        temperature: None,
        top_p: None,
        top_k: None,
        stop_sequences: None,
        metadata: None,
        thinking: None,
        output_config: None,
    };

    let result = convert_request(request).expect("convert");
    // user text, assistant text, function_call, function_call_output
    assert_eq!(result.input.len(), 4);

    let user_msg = &result.input[0];
    assert!(matches!(user_msg, ResponseItem::Message { role, .. } if role == "user"));

    let asst_text = &result.input[1];
    assert!(matches!(asst_text, ResponseItem::Message { role, .. } if role == "assistant"));

    let fn_call = &result.input[2];
    assert!(
        matches!(fn_call, ResponseItem::FunctionCall { name, call_id, .. }
        if name == "get_weather" && call_id == "toolu_1")
    );

    let fn_output = &result.input[3];
    assert!(
        matches!(fn_output, ResponseItem::FunctionCallOutput { call_id, .. } if call_id == "toolu_1")
    );
}

#[test]
fn accepts_replayed_server_tool_history_blocks() {
    let mut request = plain_request(
        "3-5-sonnet-20241022",
        vec![
            AnthropicMessage {
                role: "user".to_string(),
                content: AnthropicContent::Text("Search first.".to_string()),
            },
            AnthropicMessage {
                role: "assistant".to_string(),
                content: AnthropicContent::Blocks(vec![
                    AnthropicContentBlock::ServerToolUse {
                        id: "srvtoolu_1".to_string(),
                        name: "web_search".to_string(),
                        input: json(r#"{ "query": "weather seattle" }"#),
                    },
                    AnthropicContentBlock::WebSearchToolResult {
                        tool_use_id: "srvtoolu_1".to_string(),
                        content: json(
                            r#"[{ "type": "web_search_result", "url": "https://example.com/weather", "title": "Weather" }]"#,
                        ),
                    },
                    AnthropicContentBlock::Text {
                        text: "It is raining.".to_string(),
                    },
                ]),
            },
            AnthropicMessage {
                role: "user".to_string(),
                content: AnthropicContent::Text("Why?".to_string()),
            },
        ],
    );
    request.max_tokens = Some(1024);

    let result = convert_request(request).expect("convert");
    assert_eq!(result.input.len(), 5);
    assert!(matches!(
        &result.input[1],
        ResponseItem::FunctionCall {
            name,
            call_id,
            arguments,
            ..
        } if name == "web_search"
            && call_id == "srvtoolu_1"
            && arguments == "{\"query\":\"weather seattle\"}"
    ));
    assert!(matches!(
        &result.input[2],
        ResponseItem::FunctionCallOutput { call_id, output }
            if call_id == "srvtoolu_1"
                && output.as_array().and_then(|items| items[0].get_str("type"))
                    == Some("web_search_result")
    ));
    assert!(matches!(
        &result.input[3],
        ResponseItem::Message { role, content, .. }
            if role == "assistant"
                && matches!(
                    &content[0],
                    ContentItem::OutputText { text } if text == "It is raining."
                )
    ));
}

#[test]
fn converts_tool_result_images_to_user_image_messages() {
    let request = AnthropicRequest {
        model: "3-5-sonnet-20241022".to_string(),
        max_tokens: Some(1024),
        system: None,
        messages: vec![AnthropicMessage {
            role: "user".to_string(),
            content: AnthropicContent::Blocks(vec![AnthropicContentBlock::ToolResult {
                tool_use_id: "toolu_1".to_string(),
                content: Some(AnthropicContent::Blocks(vec![
                    AnthropicContentBlock::Text {
                        text: "screenshot attached".to_string(),
                    },
                    AnthropicContentBlock::Image {
                        source: AnthropicImageSource {
                            kind: "url".to_string(),
                            media_type: None,
                            data: None,
                            url: Some("https://example.com/result.png".to_string()),
                            file_id: None,
                        },
                    },
                ])),
                is_error: None,
            }]),
        }],
        tools: None,
        tool_choice: None,
        stream: true,
        temperature: None,
        top_p: None,
        top_k: None,
        stop_sequences: None,
        metadata: None,
        thinking: None,
        output_config: None,
    };

    let result = convert_request(request).expect("convert");
    assert_eq!(result.input.len(), 2);
    assert!(matches!(
        &result.input[0],
        ResponseItem::FunctionCallOutput { call_id, output }
            if call_id == "toolu_1" && output == &json(r#""screenshot attached""#)
    ));
    assert!(matches!(
        &result.input[1],
        ResponseItem::Message { role, content, .. }
            if role == "user"
                && matches!(
                    &content[0],
                    ContentItem::InputImage { image_url: Some(url), .. }
                        if url == "https://example.com/result.png"
                )
    ));
}

#[test]
fn converts_tools_to_function_specs() {
    let request = AnthropicRequest {
        model: "3-5-sonnet-20241022".to_string(),
        max_tokens: Some(1024),
        system: None,
        messages: vec![AnthropicMessage {
            role: "user".to_string(),
            content: AnthropicContent::Text("Hi".to_string()),
        }],
        tools: Some(vec![
            AnthropicTool {
                name: "zulu".to_string(),
                description: Some("Z".to_string()),
                input_schema: json(r#"{"type": "object"}"#),
            },
            AnthropicTool {
                name: "alpha".to_string(),
                description: Some("A".to_string()),
                input_schema: json(r#"{ "type": "object", "properties": { "location": { "type": "string" } }, "required": ["location"] }"#),
            },
        ]),
        tool_choice: None,
        stream: true,
        temperature: None,
        top_p: None,
        top_k: None,
        stop_sequences: None,
        metadata: None,
        thinking: None,
        output_config: None,
    };

    let result = convert_request(request).expect("convert");
    assert_eq!(result.tools.len(), 2);
    assert!(matches!(&result.tools[0], ToolSpec::Function { name, .. } if name == "alpha"));
}

#[test]
fn converts_thinking_enabled_to_reasoning() {
    let request = AnthropicRequest {
        model: "3-5-sonnet-20241022".to_string(),
        max_tokens: Some(16000),
        system: None,
        messages: vec![AnthropicMessage {
            role: "user".to_string(),
            content: AnthropicContent::Text("Think".to_string()),
        }],
        tools: None,
        tool_choice: None,
        stream: true,
        temperature: None,
        top_p: None,
        top_k: None,
        stop_sequences: None,
        metadata: None,
        thinking: Some(AnthropicThinking::Enabled {
            budget_tokens: Some(10000),
        }),
        output_config: None,
    };

    let result = convert_request(request).expect("convert");
    assert!(result.reasoning.is_some());
    assert_eq!(
        result.reasoning.as_ref().unwrap().effort.as_deref(),
        Some("medium")
    );
    assert!(result.extra_body.is_empty());
}

#[test]
fn converts_thinking_history_signature_to_encrypted_content() {
    let request = AnthropicRequest {
        model: "3-5-sonnet-20241022".to_string(),
        max_tokens: Some(1024),
        system: None,
        messages: vec![AnthropicMessage {
            role: "assistant".to_string(),
            content: AnthropicContent::Blocks(vec![AnthropicContentBlock::Thinking {
                thinking: "private chain".to_string(),
                signature: Some("sig_history".to_string()),
            }]),
        }],
        tools: None,
        tool_choice: None,
        stream: true,
        temperature: None,
        top_p: None,
        top_k: None,
        stop_sequences: None,
        metadata: None,
        thinking: None,
        output_config: None,
    };

    let result = convert_request(request).expect("convert");
    assert_eq!(result.input.len(), 1);
    assert!(matches!(
        &result.input[0],
        ResponseItem::Reasoning {
            content: Some(content),
            encrypted_content: Some(signature),
            ..
        } if signature == "sig_history"
            && matches!(
                &content[0],
                ReasoningContentItem::ReasoningText { text } if text == "private chain"
        )
    ));
}

#[test]
fn preserves_assistant_thinking_before_text_history_order() {
    let request = AnthropicRequest {
        model: "3-5-sonnet-20241022".to_string(),
        max_tokens: Some(1024),
        system: None,
        messages: vec![AnthropicMessage {
            role: "assistant".to_string(),
            content: AnthropicContent::Blocks(vec![
                AnthropicContentBlock::Thinking {
                    thinking: "private".to_string(),
                    signature: Some("sig".to_string()),
                },
                AnthropicContentBlock::Text {
                    text: "Answer".to_string(),
                },
            ]),
        }],
        tools: None,
        tool_choice: None,
        stream: true,
        temperature: None,
        top_p: None,
        top_k: None,
        stop_sequences: None,
        metadata: None,
        thinking: None,
        output_config: None,
    };

    let result = convert_request(request).expect("convert");
    assert_eq!(result.input.len(), 2);
    assert!(matches!(
        &result.input[0],
        ResponseItem::Reasoning {
            content: Some(content),
            encrypted_content: Some(signature),
            ..
        } if signature == "sig"
            && matches!(
                &content[0],
                ReasoningContentItem::ReasoningText { text } if text == "private"
            )
    ));
    assert!(matches!(
        &result.input[1],
        ResponseItem::Message { role, content, .. }
            if role == "assistant"
                && matches!(
                    &content[0],
                    ContentItem::OutputText { text } if text == "Answer"
                )
    ));
}

#[test]
fn accepts_non_streaming_request() {
    let request = AnthropicRequest {
        model: "3-5-sonnet-20241022".to_string(),
        max_tokens: Some(1024),
        system: None,
        messages: vec![AnthropicMessage {
            role: "user".to_string(),
            content: AnthropicContent::Text("Hello".to_string()),
        }],
        tools: None,
        tool_choice: None,
        stream: false,
        temperature: None,
        top_p: None,
        top_k: None,
        stop_sequences: None,
        metadata: None,
        thinking: None,
        output_config: None,
    };

    let result = convert_request(request);
    assert!(result.is_ok());
    assert_eq!(result.unwrap().stream, true);
}

#[test]
fn converts_anthropic_tool_choice_variants() {
    let request = AnthropicRequest {
        model: "3-5-sonnet-20241022".to_string(),
        max_tokens: Some(1024),
        system: None,
        messages: vec![AnthropicMessage {
            role: "user".to_string(),
            content: AnthropicContent::Text("Hello".to_string()),
        }],
        tools: Some(vec![AnthropicTool {
            name: "echo".to_string(),
            description: Some("Echo".to_string()),
            input_schema: json(r#"{"type": "object"}"#),
        }]),
        tool_choice: Some(AnthropicToolChoice::Tool {
            name: "echo".to_string(),
        }),
        stream: true,
        temperature: None,
        top_p: None,
        top_k: None,
        stop_sequences: None,
        metadata: None,
        thinking: None,
        output_config: None,
    };

    let tool_specific = convert_request(request).expect("convert");
    assert!(same(
        &tool_specific.tool_choice,
        &json(r#"{"type": "function", "function": {"name": "echo"}}"#)
    ));

    assert_eq!(
        convert_tool_choice(&Some(AnthropicToolChoice::Any)),
        Json::Text("required".to_string())
    );
    assert_eq!(
        convert_tool_choice(&Some(AnthropicToolChoice::NoTool)),
        Json::Text("none".to_string())
    );
}

#[test]
fn rejects_unsupported_anthropic_fields() {
    let request = AnthropicRequest {
        model: "3-5-sonnet-20241022".to_string(),
        max_tokens: Some(1024),
        system: None,
        messages: vec![AnthropicMessage {
            role: "user".to_string(),
            content: AnthropicContent::Text("Hello".to_string()),
        }],
        tools: None,
        tool_choice: None,
        stream: true,
        temperature: None,
        top_p: None,
        top_k: Some(5),
        stop_sequences: None,
        metadata: None,
        thinking: None,
        output_config: None,
    };
    assert!(convert_request(request).is_err());
}

#[test]
fn converts_base64_image_to_input_image() {
    let source = AnthropicImageSource {
        kind: "base64".to_string(),
        media_type: Some("image/png".to_string()),
        data: Some("iVBORw0KGgo=".to_string()),
        url: None,
        file_id: None,
    };
    let item = image_source_to_content_item(&source).expect("image item");
    assert!(matches!(
        item,
        ContentItem::InputImage {
            image_url: Some(ref image_url),
            file_id: None,
            ..
        } if image_url == "data:image/png;base64,iVBORw0KGgo="
    ));
}

#[test]
fn converts_url_image_source() {
    let source = AnthropicImageSource {
        kind: "url".to_string(),
        media_type: None,
        data: None,
        url: Some("https://example.com/img.png".to_string()),
        file_id: None,
    };
    let item = image_source_to_content_item(&source).expect("image item");
    assert!(matches!(
        item,
        ContentItem::InputImage {
            image_url: Some(ref image_url),
            file_id: None,
            ..
        } if image_url == "https://example.com/img.png"
    ));
}

#[test]
fn converts_file_image_source_to_file_id() {
    let source = AnthropicImageSource {
        kind: "file".to_string(),
        media_type: None,
        data: None,
        url: None,
        file_id: Some("file_123".to_string()),
    };
    let item = image_source_to_content_item(&source).expect("image item");
    assert!(matches!(
        item,
        ContentItem::InputImage {
            image_url: None,
            file_id: Some(ref file_id),
            ..
        } if file_id == "file_123"
    ));
}

fn plain_request(model: &str, messages: Vec<AnthropicMessage>) -> AnthropicRequest {
    AnthropicRequest {
        model: model.to_string(),
        max_tokens: None,
        system: None,
        messages,
        tools: None,
        tool_choice: None,
        stream: false,
        temperature: None,
        top_p: None,
        top_k: None,
        stop_sequences: None,
        metadata: None,
        thinking: None,
        output_config: None,
    }
}

#[test]
fn only_injected_lines_are_taken_out() {
    let date = "Today's date is 2026-01-02.";
    for (text, left) in [
        (format!("a\n{date}\nb"), "a\nb"),
        (format!("{date}\n"), ""),
        (format!("a\n\n{date}"), "a\n"),
        (format!("{date}\n\n"), "\n"),
        ("a\n\nb\n".to_string(), "a\n\nb\n"),
        (String::new(), ""),
    ] {
        let once = join_filtered_lines(&text, InjectedLine::Date);
        assert_eq!(once, left, "{text:?}");
        assert_eq!(join_filtered_lines(&once, InjectedLine::Date), once);
    }
    assert_eq!(
        join_filtered_lines("x-anthropic-billing-header: 1\nkeep", InjectedLine::BillingHeader),
        "keep"
    );
}
