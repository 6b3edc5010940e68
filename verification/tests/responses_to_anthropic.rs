use llmconduit::adapters::responses_to_anthropic::message::input_or_empty;
use llmconduit::adapters::responses_to_anthropic::{
    AnthropicStreamCollector, AnthropicStreamConverter,
};
use llmconduit::json::{parse_json, render_json, Json};
use llmconduit::models::anthropic::{
    AnthropicContentBlockStart, AnthropicDelta, AnthropicResponseContentBlock,
    AnthropicStreamEvent,
};
use llmconduit::sse::SseEvent;

fn json(text: &str) -> Json {
    parse_json(text).expect("JSON")
}

fn quoted(text: &str) -> String {
    render_json(&Json::Text(text.to_string()))
}

fn created_event() -> SseEvent {
    SseEvent {
        event: "response.created".to_string(),
        data: json(r#"{ "type": "response.created", "response": { "id": "resp_123" } }"#),
    }
}

fn item_added_event(item_type: &str, role: &str) -> SseEvent {
    SseEvent {
        event: "response.output_item.added".to_string(),
        data: json(&format!(r#"{{ "type": "response.output_item.added", "item": {{ "type": {}, "role": {} }} }}"#, quoted(item_type), quoted(role))),
    }
}

fn text_delta_event(text: &str) -> SseEvent {
    SseEvent {
        event: "response.output_text.delta".to_string(),
        data: json(&format!(r#"{{ "type": "response.output_text.delta", "delta": {} }}"#, quoted(text))),
    }
}

fn reasoning_delta_event(text: &str) -> SseEvent {
    SseEvent {
        event: "response.reasoning_text.delta".to_string(),
        data: json(&format!(r#"{{ "type": "response.reasoning_text.delta", "delta": {}, "content_index": 0 }}"#, quoted(text))),
    }
}

fn reasoning_signature_delta_event(signature: &str) -> SseEvent {
    SseEvent {
        event: "response.reasoning_summary_text.signature_delta".to_string(),
        data: json(&format!(r#"{{ "type": "response.reasoning_summary_text.signature_delta", "signature": {}, "summary_index": 0 }}"#, quoted(signature))),
    }
}

fn function_call_arguments_delta_event(call_id: &str, name: &str, delta: &str) -> SseEvent {
    SseEvent {
        event: "response.function_call_arguments.delta".to_string(),
        data: json(&format!(r#"{{ "type": "response.function_call_arguments.delta", "call_id": {}, "name": {}, "delta": {} }}"#, quoted(call_id), quoted(name), quoted(delta))),
    }
}

fn function_call_arguments_done_event(call_id: &str, name: &str, arguments: &str) -> SseEvent {
    SseEvent {
        event: "response.function_call_arguments.done".to_string(),
        data: json(&format!(r#"{{ "type": "response.function_call_arguments.done", "call_id": {}, "name": {}, "arguments": {} }}"#, quoted(call_id), quoted(name), quoted(arguments))),
    }
}

fn item_done_event(item_type: &str, extra: Json) -> SseEvent {
    let mut item = json(&format!(r#"{{ "type": {} }}"#, quoted(item_type)));
    if let (Json::Object(item), Json::Object(extra)) = (&mut item, extra) {
        item.extend(extra);
    }
    SseEvent {
        event: "response.output_item.done".to_string(),
        data: json(&format!(
            r#"{{ "type": "response.output_item.done", "item": {} }}"#,
            render_json(&item)
        )),
    }
}

fn completed_event() -> SseEvent {
    SseEvent {
        event: "response.completed".to_string(),
        data: json(r#"{ "type": "response.completed", "response": { "id": "resp_123" } }"#),
    }
}

fn completed_event_with_usage(input_tokens: u64, output_tokens: u64) -> SseEvent {
    SseEvent {
        event: "response.completed".to_string(),
        data: json(&format!(r#"{{ "type": "response.completed", "response": {{ "id": "resp_123", "usage": {{ "input_tokens": {}, "output_tokens": {} }} }} }}"#, input_tokens, output_tokens)),
    }
}

fn completed_event_with_usage_details(
    input_tokens: u64,
    output_tokens: u64,
    thinking_tokens: u64,
) -> SseEvent {
    SseEvent {
        event: "response.completed".to_string(),
        data: json(&format!(r#"{{ "type": "response.completed", "response": {{ "id": "resp_123", "usage": {{ "input_tokens": {}, "output_tokens": {}, "output_tokens_details": {{ "thinking_tokens": {} }} }} }} }}"#, input_tokens, output_tokens, thinking_tokens)),
    }
}

fn completed_event_with_stop_sequence(stop: &str) -> SseEvent {
    SseEvent {
        event: "response.completed".to_string(),
        data: json(&format!(r#"{{ "type": "response.completed", "response": {{ "id": "resp_123", "stop_sequence": {} }} }}"#, quoted(stop))),
    }
}

fn incomplete_event(reason: &str, input_tokens: u64, output_tokens: u64) -> SseEvent {
    SseEvent {
        event: "response.incomplete".to_string(),
        data: json(&format!(r#"{{ "type": "response.incomplete", "response": {{ "id": "resp_123", "usage": {{ "input_tokens": {}, "output_tokens": {} }}, "incomplete_details": {{ "reason": {} }} }} }}"#, input_tokens, output_tokens, quoted(reason))),
    }
}

fn failed_event(message: &str) -> SseEvent {
    SseEvent {
        event: "response.failed".to_string(),
        data: json(&format!(r#"{{ "type": "response.failed", "response": {{ "error": {{ "code": "gateway_error", "message": {} }} }} }}"#, quoted(message))),
    }
}

fn event_type(event: &AnthropicStreamEvent) -> &'static str {
    match event {
        AnthropicStreamEvent::Ping => "ping",
        AnthropicStreamEvent::MessageStart { .. } => "message_start",
        AnthropicStreamEvent::ContentBlockStart { .. } => "content_block_start",
        AnthropicStreamEvent::ContentBlockDelta { .. } => "content_block_delta",
        AnthropicStreamEvent::ContentBlockStop { .. } => "content_block_stop",
        AnthropicStreamEvent::MessageDelta { .. } => "message_delta",
        AnthropicStreamEvent::MessageStop => "message_stop",
        AnthropicStreamEvent::Error { .. } => "error",
    }
}

fn event_types(events: &[AnthropicStreamEvent]) -> Vec<&'static str> {
    events.iter().map(event_type).collect()
}

#[test]
fn converts_simple_text_response() {
    let mut converter = AnthropicStreamConverter::new("model-3".to_string());
    let events: Vec<AnthropicStreamEvent> = [
        created_event(),
        item_added_event("message", "assistant"),
        text_delta_event("Hello"),
        text_delta_event(" world"),
        item_done_event("message", json(r#"{}"#)),
        completed_event(),
    ]
    .iter()
    .flat_map(|e| converter.convert(e))
    .collect();

    assert_eq!(
        event_types(&events),
        vec![
            "ping",
            "message_start",
            "content_block_start",
            "content_block_delta",
            "message_delta",
            "content_block_delta",
            "message_delta",
            "content_block_stop",
            "message_delta",
            "message_stop",
        ]
    );
}

#[test]
fn converts_reasoning_then_text_response() {
    let mut converter = AnthropicStreamConverter::new("model-3".to_string());
    let events: Vec<AnthropicStreamEvent> = [
        created_event(),
        item_added_event("reasoning", ""),
        reasoning_delta_event("Thinking..."),
        item_added_event("message", "assistant"),
        text_delta_event("Answer"),
        item_done_event("reasoning", json(r#"{}"#)),
        item_done_event("message", json(r#"{}"#)),
        completed_event(),
    ]
    .iter()
    .flat_map(|e| converter.convert(e))
    .collect();

    assert_eq!(
        event_types(&events),
        vec![
            "ping",
            "message_start",
            "content_block_start", // thinking
            "content_block_delta", // thinking delta
            "message_delta",       // progressive usage
            "content_block_stop",  // close thinking before text
            "content_block_start", // text
            "content_block_delta", // text delta
            "message_delta",       // progressive usage
            "content_block_stop",  // close text
            "message_delta",       // terminal stop reason
            "message_stop",
        ]
    );
}

#[test]
fn converts_reasoning_signature_delta() {
    let mut converter = AnthropicStreamConverter::new("model-3".to_string());
    let events: Vec<AnthropicStreamEvent> = [
        created_event(),
        item_added_event("reasoning", ""),
        reasoning_delta_event("Thinking..."),
        reasoning_signature_delta_event("sig_123"),
    ]
    .iter()
    .flat_map(|e| converter.convert(e))
    .collect();

    let signatures: Vec<&str> = events
        .iter()
        .filter_map(|event| match event {
            AnthropicStreamEvent::ContentBlockDelta {
                delta: AnthropicDelta::SignatureDelta { signature },
                ..
            } => Some(signature.as_str()),
            _ => None,
        })
        .collect();
    assert_eq!(signatures, vec!["sig_123"]);
}

#[test]
fn converts_function_call_response() {
    let mut converter = AnthropicStreamConverter::new("model-3".to_string());
    let events: Vec<AnthropicStreamEvent> = [
        created_event(),
        item_added_event("message", "assistant"),
        text_delta_event("Let me check."),
        item_done_event("message", json(r#"{}"#)),
        item_done_event(
            "function_call",
            json(r#"{ "call_id": "call_1", "name": "get_weather", "arguments": "{\"location\":\"Seattle\"}" }"#),
        ),
        completed_event(),
    ]
    .iter()
    .flat_map(|e| converter.convert(e))
    .collect();

    assert_eq!(
        event_types(&events),
        vec![
            "ping",
            "message_start",
            "content_block_start", // text
            "content_block_delta", // text delta
            "message_delta",       // progressive usage
            "content_block_stop",  // close text
            "content_block_start", // tool_use
            "content_block_delta", // input_json_delta
            "message_delta",       // progressive usage
            "content_block_stop",  // close tool_use
            "message_delta",       // terminal stop reason
            "message_stop",
        ]
    );

    // Verify stop_reason is tool_use
    let message_delta = events
        .iter()
        .find(|e| matches!(e, AnthropicStreamEvent::MessageDelta { .. }));
    assert!(message_delta.is_some());
}

#[test]
fn streams_function_call_argument_deltas_progressively() {
    let mut converter = AnthropicStreamConverter::new("model-3".to_string());
    let events: Vec<AnthropicStreamEvent> = [
        created_event(),
        function_call_arguments_delta_event("call_1", "get_weather", r#"{"loc"#),
        function_call_arguments_delta_event("call_1", "get_weather", r#"ation":"Seattle"}"#),
        function_call_arguments_done_event(
            "call_1",
            "get_weather",
            r#"{"location":"Seattle"}"#,
        ),
        item_done_event(
            "function_call",
            json(r#"{ "call_id": "call_1", "name": "get_weather", "arguments": "{\"location\":\"Seattle\"}" }"#),
        ),
        completed_event(),
    ]
    .iter()
    .flat_map(|e| converter.convert(e))
    .collect();

    assert_eq!(
        event_types(&events),
        vec![
            "ping",
            "message_start",
            "content_block_start",
            "content_block_delta",
            "message_delta",
            "content_block_delta",
            "message_delta",
            "content_block_stop",
            "message_delta",
            "message_stop",
        ]
    );
    let tool_starts = events
        .iter()
        .filter(|event| {
            matches!(
                event,
                AnthropicStreamEvent::ContentBlockStart {
                    content_block: AnthropicContentBlockStart::ToolUse { .. },
                    ..
                }
            )
        })
        .count();
    assert_eq!(tool_starts, 1);
    let partials: Vec<&str> = events
        .iter()
        .filter_map(|event| match event {
            AnthropicStreamEvent::ContentBlockDelta {
                delta: AnthropicDelta::InputJsonDelta { partial_json },
                ..
            } => Some(partial_json.as_str()),
            _ => None,
        })
        .collect();
    assert_eq!(partials, vec![r#"{"loc"#, r#"ation":"Seattle"}"#]);
}

#[test]
fn converts_tool_use_only_response() {
    let mut converter = AnthropicStreamConverter::new("model-3".to_string());
    let events: Vec<AnthropicStreamEvent> = [
        created_event(),
        item_done_event(
            "function_call",
            json(r#"{ "call_id": "call_1", "name": "search", "arguments": "{\"query\":\"test\"}" }"#),
        ),
        completed_event(),
    ]
    .iter()
    .flat_map(|e| converter.convert(e))
    .collect();

    // Should have tool_use block with tool_use stop_reason
    let has_tool_use = events.iter().any(|e| {
        matches!(
            e,
            AnthropicStreamEvent::ContentBlockStart {
                content_block: AnthropicContentBlockStart::ToolUse { .. },
                ..
            }
        )
    });
    assert!(has_tool_use);
}

#[test]
fn converts_failure_event() {
    let mut converter = AnthropicStreamConverter::new("model-3".to_string());
    let events = converter.convert(&failed_event("upstream timeout"));

    assert_eq!(event_types(&events), vec!["error"]);
}

#[test]
fn emits_usage_from_completed_response() {
    let mut converter = AnthropicStreamConverter::new("model-3".to_string());
    let events: Vec<AnthropicStreamEvent> =
        [created_event(), completed_event_with_usage(12, 5)]
            .iter()
            .flat_map(|e| converter.convert(e))
            .collect();

    let message_start = events
        .iter()
        .find_map(|event| match event {
            AnthropicStreamEvent::MessageStart { message } => Some(message),
            _ => None,
        })
        .expect("message_start");
    assert_eq!(message_start.usage.input_tokens, Some(0));
    assert_eq!(message_start.usage.output_tokens, Some(0));

    let message_delta = events
        .iter()
        .find_map(|event| match event {
            AnthropicStreamEvent::MessageDelta { usage, .. } => Some(usage),
            _ => None,
        })
        .expect("message_delta");
    assert_eq!(message_delta.input_tokens, Some(12));
    assert_eq!(message_delta.output_tokens, Some(5));
    assert!(message_delta.output_tokens_details.is_none());
}

#[test]
fn emits_completed_response_thinking_token_details() {
    let mut converter = AnthropicStreamConverter::new("model-3".to_string());
    let events: Vec<AnthropicStreamEvent> = [
        created_event(),
        completed_event_with_usage_details(12, 20, 7),
    ]
    .iter()
    .flat_map(|e| converter.convert(e))
    .collect();

    let message_delta = events
        .iter()
        .find_map(|event| match event {
            AnthropicStreamEvent::MessageDelta { delta, usage }
                if delta.stop_reason.is_some() =>
            {
                Some(usage)
            }
            _ => None,
        })
        .expect("terminal message_delta");

    assert_eq!(message_delta.input_tokens, Some(12));
    assert_eq!(message_delta.output_tokens, Some(20));
    assert_eq!(
        message_delta
            .output_tokens_details
            .as_ref()
            .map(|details| details.thinking_tokens),
        Some(7)
    );
}

#[test]
fn emits_progress_usage_for_reasoning_deltas() {
    let mut converter = AnthropicStreamConverter::new("model-3".to_string());
    let events: Vec<AnthropicStreamEvent> = [
        created_event(),
        item_added_event("reasoning", ""),
        reasoning_delta_event("abcd"),
        reasoning_delta_event("efgh"),
    ]
    .iter()
    .flat_map(|e| converter.convert(e))
    .collect();

    let message_deltas: Vec<_> = events
        .iter()
        .filter_map(|event| match event {
            AnthropicStreamEvent::MessageDelta { delta, usage } => Some((delta, usage)),
            _ => None,
        })
        .collect();
    let output_tokens: Vec<u64> = message_deltas
        .iter()
        .filter_map(|(_, usage)| usage.output_tokens)
        .collect();
    assert_eq!(output_tokens, vec![1, 2]);
    assert!(
        message_deltas
            .iter()
            .all(|(delta, _)| delta.stop_reason.is_none()),
        "progress usage must not terminate the message"
    );
    assert!(
        message_deltas
            .iter()
            .all(|(_, usage)| usage.output_tokens_details.is_none()),
        "progress usage must not include output token details"
    );
}

#[test]
fn emits_terminal_thinking_token_details_for_reasoning_deltas() {
    let mut converter = AnthropicStreamConverter::new("model-3".to_string());
    let events: Vec<AnthropicStreamEvent> = [
        created_event(),
        item_added_event("reasoning", ""),
        reasoning_delta_event("abcdefgh"),
        item_done_event("reasoning", json(r#"{}"#)),
        completed_event(),
    ]
    .iter()
    .flat_map(|e| converter.convert(e))
    .collect();

    let terminal_usage = events
        .iter()
        .find_map(|event| match event {
            AnthropicStreamEvent::MessageDelta { delta, usage }
                if delta.stop_reason.as_deref() == Some("end_turn") =>
            {
                Some(usage)
            }
            _ => None,
        })
        .expect("terminal message_delta");

    assert_eq!(terminal_usage.output_tokens, Some(2));
    assert_eq!(
        terminal_usage
            .output_tokens_details
            .as_ref()
            .map(|details| details.thinking_tokens),
        Some(2)
    );
}

#[test]
fn non_streaming_collector_preserves_terminal_thinking_token_details() {
    let mut collector = AnthropicStreamCollector::new("model-3".to_string());
    for event in [
        created_event(),
        item_added_event("reasoning", ""),
        reasoning_delta_event("abcdefgh"),
        item_done_event("reasoning", json(r#"{}"#)),
        completed_event(),
    ] {
        collector.process(&event);
    }

    let response = collector.into_response().expect("response");
    assert_eq!(response.usage.output_tokens, 2);
    assert_eq!(
        response
            .usage
            .output_tokens_details
            .as_ref()
            .map(|details| details.thinking_tokens),
        Some(2)
    );
}

#[test]
fn completed_without_upstream_usage_preserves_progress_usage() {
    let mut converter = AnthropicStreamConverter::new("model-3".to_string());
    let events: Vec<AnthropicStreamEvent> = [
        created_event(),
        item_added_event("message", "assistant"),
        text_delta_event("abcd"),
        item_done_event("message", json(r#"{}"#)),
        completed_event(),
    ]
    .iter()
    .flat_map(|e| converter.convert(e))
    .collect();

    let terminal_delta = events
        .iter()
        .filter_map(|event| match event {
            AnthropicStreamEvent::MessageDelta { delta, usage } => {
                delta.stop_reason.as_ref().map(|reason| (reason, usage))
            }
            _ => None,
        })
        .next()
        .expect("terminal message_delta");
    assert_eq!(terminal_delta.0, "end_turn");
    assert_eq!(terminal_delta.1.output_tokens, Some(1));
}

#[test]
fn converts_incomplete_to_max_tokens_stop_reason() {
    let mut converter = AnthropicStreamConverter::new("model-3".to_string());
    let events: Vec<AnthropicStreamEvent> = [
        created_event(),
        incomplete_event("max_output_tokens", 12, 5),
    ]
    .iter()
    .flat_map(|e| converter.convert(e))
    .collect();

    let message_delta = events
        .iter()
        .find_map(|event| match event {
            AnthropicStreamEvent::MessageDelta { delta, .. } => Some(delta),
            _ => None,
        })
        .expect("message_delta");
    assert_eq!(message_delta.stop_reason.as_deref(), Some("max_tokens"));
}

#[test]
fn converts_completed_stop_sequence_to_stop_sequence_reason() {
    let mut converter = AnthropicStreamConverter::new("model-3".to_string());
    let events: Vec<AnthropicStreamEvent> = [
        created_event(),
        item_added_event("message", "assistant"),
        text_delta_event("Hello"),
        item_done_event("message", json(r#"{}"#)),
        completed_event_with_stop_sequence("</block>"),
    ]
    .iter()
    .flat_map(|e| converter.convert(e))
    .collect();

    let message_delta = events
        .iter()
        .filter_map(|event| match event {
            AnthropicStreamEvent::MessageDelta { delta, .. } if delta.stop_reason.is_some() => {
                Some(delta)
            }
            _ => None,
        })
        .next()
        .expect("terminal message_delta");
    assert_eq!(message_delta.stop_reason.as_deref(), Some("stop_sequence"));
    assert_eq!(message_delta.stop_sequence, Some(json(r#""</block>""#)));
}

#[test]
fn collector_returns_final_usage() {
    let mut collector = AnthropicStreamCollector::new("model-3".to_string());
    for event in [
        created_event(),
        item_added_event("message", "assistant"),
        text_delta_event("Hello"),
        item_done_event("message", json(r#"{}"#)),
        completed_event_with_usage(12, 5),
    ] {
        collector.process(&event);
    }

    let response = collector.into_response().expect("response");
    assert_eq!(response.usage.input_tokens, 12);
    assert_eq!(response.usage.output_tokens, 5);
}

#[test]
fn collector_surfaces_stop_sequence() {
    let mut collector = AnthropicStreamCollector::new("model-3".to_string());
    for event in [
        created_event(),
        item_added_event("message", "assistant"),
        text_delta_event("Hello"),
        item_done_event("message", json(r#"{}"#)),
        completed_event_with_stop_sequence("</block>"),
    ] {
        collector.process(&event);
    }

    let response = collector.into_response().expect("response");
    assert_eq!(response.stop_reason, "stop_sequence");
    assert_eq!(response.stop_sequence, Some(json(r#""</block>""#)));
}

#[test]
fn collector_preserves_thinking_signature() {
    let mut collector = AnthropicStreamCollector::new("model-3".to_string());
    for event in [
        created_event(),
        item_added_event("reasoning", ""),
        reasoning_delta_event("private chain"),
        reasoning_signature_delta_event("sig_123"),
        item_done_event("reasoning", json(r#"{}"#)),
        completed_event(),
    ] {
        collector.process(&event);
    }

    let response = collector.into_response().expect("response");
    assert!(matches!(
        &response.content[0],
        AnthropicResponseContentBlock::Thinking {
            thinking,
            signature: Some(signature),
        } if thinking == "private chain" && signature == "sig_123"
    ));
}

#[test]
fn skips_web_search_call_events() {
    let mut converter = AnthropicStreamConverter::new("model-3".to_string());
    let events: Vec<AnthropicStreamEvent> = [
        created_event(),
        item_added_event("message", "assistant"),
        text_delta_event("Searching..."),
        item_done_event("message", json(r#"{}"#)),
        // web_search_call events should be skipped
        SseEvent {
            event: "response.output_item.added".to_string(),
            data: json(r#"{ "type": "response.output_item.added", "item": { "type": "web_search_call", "id": "ws_1", "status": "in_progress" } }"#),
        },
        SseEvent {
            event: "response.output_item.done".to_string(),
            data: json(r#"{ "type": "response.output_item.done", "item": { "type": "web_search_call", "id": "ws_1", "status": "completed" } }"#),
        },
        // After internal web search, more text comes in a new turn
        // (simulated by another item_added + delta)
        item_added_event("message", "assistant"),
        text_delta_event("Here are the results."),
        item_done_event("message", json(r#"{}"#)),
        completed_event(),
    ]
    .iter()
    .flat_map(|e| converter.convert(e))
    .collect();

    // No tool_use events should appear for web_search_call
    let has_web_search_tool_use = events.iter().any(|e| {
        matches!(
            e,
            AnthropicStreamEvent::ContentBlockStart {
                content_block: AnthropicContentBlockStart::ToolUse { name, .. },
                ..
            } if name == "web_search"
        )
    });
    assert!(!has_web_search_tool_use);
}

#[test]
fn finalize_terminates_stream_when_upstream_ends_without_completed() {
    let mut converter = AnthropicStreamConverter::new("model-3".to_string());
    let mut events: Vec<AnthropicStreamEvent> = [
        created_event(),
        item_added_event("message", "assistant"),
        text_delta_event("Searching the web"),
        // ...stream ends here: no response.output_item.done, no completed.
    ]
    .iter()
    .flat_map(|e| converter.convert(e))
    .collect();
    events.extend(converter.finalize());

    let names = event_types(&events);
    assert_eq!(
        names.last(),
        Some(&"message_stop"),
        "stream must end with message_stop, got {names:?}"
    );
    // The dangling text content block must be closed before message_stop.
    let stop_idx = names.iter().position(|n| *n == "content_block_stop");
    let msg_stop_idx = names.iter().position(|n| *n == "message_stop");
    assert!(stop_idx < msg_stop_idx, "open block not closed: {names:?}");
}

#[test]
fn finalize_terminates_stream_with_no_events_at_all() {
    let mut converter = AnthropicStreamConverter::new("model-3".to_string());
    let events = converter.finalize();
    assert_eq!(
        event_types(&events),
        vec!["ping", "message_start", "message_delta", "message_stop"]
    );
}

#[test]
fn finalize_is_noop_after_normal_completion() {
    let mut converter = AnthropicStreamConverter::new("model-3".to_string());
    let _: Vec<_> = [
        created_event(),
        item_added_event("message", "assistant"),
        text_delta_event("Hello"),
        item_done_event("message", json(r#"{}"#)),
        completed_event(),
    ]
    .iter()
    .flat_map(|e| converter.convert(e))
    .collect();
    // No duplicate message_delta/message_stop after a clean completion.
    assert!(converter.finalize().is_empty());
}

fn web_search_results_event(tool_use_id: &str, query: &str, results: &str) -> SseEvent {
    SseEvent {
        event: "response.web_search_results".to_string(),
        data: json(&format!(
            r#"{{ "type": "response.web_search_results", "tool_use_id": {}, "query": {}, "results": {} }}"#,
            quoted(tool_use_id),
            quoted(query),
            results
        )),
    }
}

#[test]
fn web_search_results_emit_server_tool_use_then_result_block() {
    let mut converter = AnthropicStreamConverter::new("model-3".to_string());
    let results = r#"[ {"type": "web_search_result", "url": "https://example.com/a", "title": "Site A"}, {"type": "web_search_result", "url": "https://example.com/b", "title": "Site B"} ]"#;
    let events: Vec<AnthropicStreamEvent> = [
        created_event(),
        item_added_event("message", "assistant"),
        text_delta_event("Let me search."),
        web_search_results_event("srvtoolu_1", "current weather Boppard", results),
        text_delta_event("It is 11C."),
        item_done_event("message", json(r#"{}"#)),
        completed_event(),
    ]
    .iter()
    .flat_map(|e| converter.convert(e))
    .collect();

    let stu_pos = events
        .iter()
        .position(|event| {
            matches!(
                event,
                AnthropicStreamEvent::ContentBlockStart {
                    content_block: AnthropicContentBlockStart::ServerToolUse { .. },
                    ..
                }
            )
        })
        .expect("server_tool_use content_block_start");
    let (stu_idx, stu_id) = match &events[stu_pos] {
        AnthropicStreamEvent::ContentBlockStart {
            index,
            content_block: AnthropicContentBlockStart::ServerToolUse { id, name },
        } => {
            assert_eq!(name, "web_search");
            (*index, id.clone())
        }
        other => panic!("expected server_tool_use, got {other:?}"),
    };
    assert!(!stu_id.is_empty(), "server_tool_use must carry an id");

    match &events[stu_pos + 1] {
        AnthropicStreamEvent::ContentBlockDelta {
            delta: AnthropicDelta::InputJsonDelta { partial_json },
            ..
        } => {
            let parsed = parse_json(partial_json).expect("partial_json is JSON");
            assert_eq!(parsed.get_str("query"), Some("current weather Boppard"));
        }
        other => panic!("expected input_json_delta, got {other:?}"),
    }
    assert_eq!(
        events[stu_pos + 2],
        AnthropicStreamEvent::ContentBlockStop { index: stu_idx }
    );

    let res_pos = stu_pos + 3;
    match &events[res_pos] {
        AnthropicStreamEvent::ContentBlockStart {
            content_block: AnthropicContentBlockStart::WebSearchToolResult { tool_use_id, content },
            ..
        } => {
            assert_eq!(*tool_use_id, stu_id);
            assert_eq!(render_json(content), render_json(&json(results)));
        }
        other => panic!("expected web_search_tool_result, got {other:?}"),
    }
    assert_eq!(event_type(&events[res_pos + 1]), "content_block_stop");

    let stop_reason = events
        .iter()
        .find_map(|event| match event {
            AnthropicStreamEvent::MessageDelta { delta, .. } => delta.stop_reason.clone(),
            _ => None,
        })
        .expect("message_delta");
    assert_eq!(stop_reason, "end_turn");
}

#[test]
fn web_search_count_is_reported_in_terminal_usage() {
    let mut converter = AnthropicStreamConverter::new("model-3".to_string());
    let r = r#"[{"type": "web_search_result", "url": "https://x", "title": "X"}]"#;
    let events: Vec<AnthropicStreamEvent> = [
        created_event(),
        item_added_event("message", "assistant"),
        web_search_results_event("srvtoolu_1", "q1", r),
        web_search_results_event("srvtoolu_2", "q2", r),
        text_delta_event("answer"),
        item_done_event("message", json(r#"{}"#)),
        completed_event(),
    ]
    .iter()
    .flat_map(|e| converter.convert(e))
    .collect();

    let server_tool_use = events
        .iter()
        .find_map(|event| match event {
            AnthropicStreamEvent::MessageDelta { usage, .. } => usage.server_tool_use.as_ref(),
            _ => None,
        })
        .expect("message_delta");
    assert_eq!(server_tool_use.web_search_requests, 2);
}

#[test]
fn no_server_tool_use_usage_when_no_web_search() {
    let mut converter = AnthropicStreamConverter::new("model-3".to_string());
    let events: Vec<AnthropicStreamEvent> = [
        created_event(),
        item_added_event("message", "assistant"),
        text_delta_event("hi"),
        item_done_event("message", json(r#"{}"#)),
        completed_event(),
    ]
    .iter()
    .flat_map(|e| converter.convert(e))
    .collect();
    let usage = events
        .iter()
        .find_map(|event| match event {
            AnthropicStreamEvent::MessageDelta { usage, .. } => Some(usage),
            _ => None,
        })
        .expect("message_delta");
    assert!(
        usage.server_tool_use.is_none(),
        "no web search => no server_tool_use usage, got {usage:?}"
    );
}

#[test]
fn finalize_terminates_stream_after_failure_event() {
    // handle_failed only emits `error`; the client still needs a terminal
    // message_stop to stop waiting.
    let mut converter = AnthropicStreamConverter::new("model-3".to_string());
    let mut events = converter.convert(&created_event());
    events.extend(converter.convert(&failed_event("web search round limit exceeded")));
    events.extend(converter.finalize());

    let names = event_types(&events);
    assert!(names.contains(&"error"), "expected error event: {names:?}");
    assert_eq!(
        names.last(),
        Some(&"message_stop"),
        "stream must still end with message_stop, got {names:?}"
    );
}

#[test]
fn broken_tool_input_is_empty() {
    assert_eq!(input_or_empty(Ok(json("[1]"))), json("[1]"));
    assert_eq!(input_or_empty(Err("bad".to_string())), json("{}"));
}

#[test]
fn collector_gathers_tool_input() {
    let mut collector = AnthropicStreamCollector::new("model-3".to_string());
    for event in [
        created_event(),
        function_call_arguments_delta_event("call_1", "f", r#"{"a""#),
        function_call_arguments_delta_event("call_1", "f", r#": [1]}"#),
        function_call_arguments_done_event("call_1", "f", r#"{"a": [1]}"#),
        completed_event(),
    ] {
        assert!(collector.has_room());
        collector.process(&event);
    }
    let response = collector.into_response().expect("response");
    match &response.content[0] {
        AnthropicResponseContentBlock::ToolUse { id, name, input } => {
            assert_eq!((id.as_str(), name.as_str()), ("call_1", "f"));
            assert_eq!(render_json(input), r#"{"a":[1]}"#);
        }
        other => panic!("expected a call, got {other:?}"),
    }
    assert_eq!(response.stop_reason, "tool_use");
}

#[test]
fn whole_stream_keeps_to_the_grammar() {
    let mut converter = AnthropicStreamConverter::new("model".to_string());
    let events: Vec<AnthropicStreamEvent> = [
        created_event(),
        reasoning_delta_event("why"),
        text_delta_event("Hi"),
        function_call_arguments_delta_event("c1", "f", "{"),
        text_delta_event("there"),
        web_search_results_event("s1", "query", "[]"),
        created_event(),
        completed_event(),
    ]
    .iter()
    .flat_map(|event| converter.convert(event))
    .collect();
    let starts =
        events.iter().filter(|e| matches!(e, AnthropicStreamEvent::MessageStart { .. })).count();
    assert_eq!(starts, 1);
    let mut open: Option<usize> = None;
    let mut next = 0;
    for event in &events {
        match event {
            AnthropicStreamEvent::ContentBlockStart { index, .. } => {
                assert_eq!((open, *index), (None, next));
                open = Some(*index);
                next += 1;
            }
            AnthropicStreamEvent::ContentBlockDelta { index, .. } => assert_eq!(open, Some(*index)),
            AnthropicStreamEvent::ContentBlockStop { index } => {
                assert_eq!(open, Some(*index));
                open = None;
            }
            _ => {}
        }
    }
    assert_eq!(open, None);
    assert!(next >= 3);
    assert!(matches!(events.last(), Some(AnthropicStreamEvent::MessageStop)));
    assert_eq!(converter.finalize().len(), 0);
}

#[test]
fn finalized_stream_begins_its_message_once() {
    for events in [vec![], vec![text_delta_event("Hi")], vec![created_event(), failed_event("gone")]] {
        let mut converter = AnthropicStreamConverter::new("model".to_string());
        let mut all: Vec<AnthropicStreamEvent> =
            events.iter().flat_map(|event| converter.convert(event)).collect();
        all.extend(converter.finalize());
        assert_eq!(event_types(&all).iter().filter(|kind| **kind == "message_start").count(), 1);
    }
    let mut over = AnthropicStreamConverter::new("model".to_string());
    let mut all = over.convert(&completed_event());
    all.extend(over.finalize());
    assert!(!event_types(&all).contains(&"message_start"));
}
