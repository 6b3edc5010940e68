use llmconduit::adapters::anthropic_to_responses::convert_request;
use llmconduit::adapters::responses_to_anthropic::deferred::{
    synthetic_signature, AnthropicStreamCollector, AnthropicStreamConverter,
};
use llmconduit::json::{parse_json, render_json, Json};
use llmconduit::models::anthropic::{
    AnthropicContent, AnthropicContentBlock, AnthropicContentBlockStart, AnthropicDelta,
    AnthropicMessage, AnthropicRequest, AnthropicResponseContentBlock, AnthropicStreamEvent,
};
use llmconduit::models::responses::ResponseItem;
use llmconduit::sse::SseEvent;

fn event(name: &str, data: &str) -> SseEvent {
    SseEvent { event: name.to_string(), data: parse_json(data).expect("JSON") }
}

fn quoted(text: &str) -> String {
    render_json(&Json::Text(text.to_string()))
}

fn created() -> SseEvent {
    event(
        "response.created",
        r#"{"response": {"id": "resp_1", "estimated_input_tokens": 11}}"#,
    )
}

fn text(delta: &str) -> SseEvent {
    event("response.output_text.delta", &format!(r#"{{"delta": {}}}"#, quoted(delta)))
}

fn reasoning(delta: &str) -> SseEvent {
    event("response.reasoning_text.delta", &format!(r#"{{"delta": {}}}"#, quoted(delta)))
}

fn signature(part: &str) -> SseEvent {
    event(
        "response.reasoning_summary_text.signature_delta",
        &format!(r#"{{"signature": {}}}"#, quoted(part)),
    )
}

fn call_arguments(name: &str, delta: &str) -> SseEvent {
    event(
        "response.function_call_arguments.delta",
        &format!(r#"{{"call_id": "call_1", "name": {}, "delta": {}}}"#, quoted(name), quoted(delta)),
    )
}

fn completed(terminal_reason: &str) -> SseEvent {
    event(
        "response.completed",
        &format!(r#"{{"response": {{"id": "resp_1", "terminal_reason": {}}}}}"#, quoted(terminal_reason)),
    )
}

fn failed() -> SseEvent {
    event("response.failed", r#"{"response": {"error": {"message": "gone"}}}"#)
}

fn run(converter: &mut AnthropicStreamConverter, events: &[SseEvent]) -> Vec<String> {
    let mut shown = Vec::new();
    for event in events {
        assert!(converter.has_room());
        for out in converter.convert(event) {
            shown.push(short(&out));
        }
    }
    shown
}

/// An event in one line.
fn short(event: &AnthropicStreamEvent) -> String {
    match event {
        AnthropicStreamEvent::Ping => "ping".to_string(),
        AnthropicStreamEvent::MessageStart { message } => {
            format!("start {:?}", message.usage.input_tokens)
        }
        AnthropicStreamEvent::ContentBlockStart { index, content_block } => match content_block {
            AnthropicContentBlockStart::Text { .. } => format!("{index} text"),
            AnthropicContentBlockStart::Thinking { .. } => format!("{index} thinking"),
            AnthropicContentBlockStart::ToolUse { name, .. } => format!("{index} tool {name}"),
            AnthropicContentBlockStart::ServerToolUse { .. } => format!("{index} search"),
            AnthropicContentBlockStart::WebSearchToolResult { .. } => format!("{index} found"),
        },
        AnthropicStreamEvent::ContentBlockDelta { index, delta } => match delta {
            AnthropicDelta::TextDelta { text } => format!("{index} +{text}"),
            AnthropicDelta::ThinkingDelta { thinking } => format!("{index} ~{thinking}"),
            AnthropicDelta::SignatureDelta { signature } => format!("{index} #{signature}"),
            AnthropicDelta::InputJsonDelta { partial_json } => format!("{index} ={partial_json}"),
        },
        AnthropicStreamEvent::ContentBlockStop { index } => format!("{index} stop"),
        AnthropicStreamEvent::MessageDelta { delta, .. } => {
            format!("end {}", delta.stop_reason.as_deref().unwrap_or("-"))
        }
        AnthropicStreamEvent::MessageStop => "stop".to_string(),
        AnthropicStreamEvent::Error { error } => format!("error {}", error.message),
    }
}

fn converter() -> AnthropicStreamConverter {
    AnthropicStreamConverter::new("model".to_string())
}

#[test]
fn reasoning_is_shown_before_the_text_it_led_to() {
    let shown = run(
        &mut converter(),
        &[created(), reasoning("why"), reasoning(" so"), text("Answer"), completed("stop")],
    );
    let stand_in = synthetic_signature("why so");
    assert_eq!(
        shown,
        vec![
            "start Some(11)".to_string(),
            "0 thinking".to_string(),
            "0 ~why".to_string(),
            "0 ~ so".to_string(),
            format!("0 #{stand_in}"),
            "0 stop".to_string(),
            "1 text".to_string(),
            "1 +Answer".to_string(),
            "1 stop".to_string(),
            "end end_turn".to_string(),
            "stop".to_string(),
        ]
    );
}

#[test]
fn signatures_are_put_together_and_kept() {
    let shown = run(
        &mut converter(),
        &[created(), reasoning("why"), signature("ab"), signature("cd"), text("x")],
    );
    assert!(shown.contains(&"0 #abcd".to_string()), "{shown:?}");
}

#[test]
fn reasoning_alone_is_the_answer_after_a_clean_stop() {
    let shown = run(&mut converter(), &[created(), reasoning("42"), completed("stop")]);
    assert_eq!(
        shown[1..],
        ["0 text", "0 +42", "0 stop", "end end_turn", "stop"].map(str::to_string)
    );
    let shown = run(&mut converter(), &[created(), reasoning("42"), completed("content_filter")]);
    assert_eq!(shown[1], "0 thinking");
    let shown = run(
        &mut converter(),
        &[created(), reasoning("42"), signature("s"), completed("stop")],
    );
    assert_eq!(shown[1], "0 thinking");
}

#[test]
fn late_reasoning_is_dropped() {
    let shown = run(&mut converter(), &[created(), text("x"), reasoning("late"), text("y")]);
    assert_eq!(
        shown[1..],
        ["0 text", "0 +x", "0 +y"].map(str::to_string)
    );
}

#[test]
fn reasoning_is_suppressed_where_it_was_not_asked_for() {
    let mut converter = AnthropicStreamConverter::with_reasoning_suppression("model".to_string(), true);
    let shown = run(&mut converter, &[created(), reasoning("why"), text("x"), completed("stop")]);
    assert_eq!(
        shown[1..],
        ["0 text", "0 +x", "0 stop", "end end_turn", "stop"].map(str::to_string)
    );
}

#[test]
fn calls_of_the_client_are_shown_and_searches_are_not() {
    let shown = run(
        &mut converter(),
        &[created(), call_arguments("weather", "{}"), completed("tool_calls")],
    );
    assert_eq!(
        shown[1..],
        ["0 tool weather", "0 ={}", "0 stop", "end tool_use", "stop"].map(str::to_string)
    );
    let shown = run(
        &mut converter(),
        &[created(), call_arguments("web_search", "{}"), completed("stop")],
    );
    assert_eq!(shown[1..], ["end end_turn", "stop"].map(str::to_string));
}

#[test]
fn failure_is_the_last_event() {
    let mut converter = converter();
    let shown = run(&mut converter, &[created(), text("x"), failed()]);
    assert_eq!(shown.last().map(String::as_str), Some("error gone"));
    assert!(converter.finalize().is_empty());
}

#[test]
fn broken_off_stream_is_finished_once() {
    let mut converter = converter();
    run(&mut converter, &[created(), reasoning("why")]);
    let shown: Vec<String> = converter.finalize().iter().map(short).collect();
    assert_eq!(shown[0], "0 thinking");
    assert_eq!(shown[shown.len() - 2..], ["end end_turn", "stop"].map(str::to_string));
    assert!(converter.finalize().is_empty());
}

#[test]
fn stand_in_signature_is_a_digest_of_the_text() {
    assert_eq!(
        synthetic_signature(""),
        "llmconduit-synthetic:e3b0c44298fc1c149afbf4c8996fb92427ae41e4649b934ca495991b7852b855"
    );
    assert_eq!(
        synthetic_signature("abc"),
        "llmconduit-synthetic:ba7816bf8f01cfea414140de5dae2223b00361a396177a9cb410ff61f20015ad"
    );
}

#[test]
fn stand_in_signature_does_not_come_back() {
    let encrypted = |signature: String| {
        let request = AnthropicRequest {
            model: "model".to_string(),
            max_tokens: None,
            system: None,
            messages: vec![AnthropicMessage {
                role: "assistant".to_string(),
                content: AnthropicContent::Blocks(vec![AnthropicContentBlock::Thinking {
                    thinking: "why".to_string(),
                    signature: Some(signature),
                }]),
            }],
            tools: None,
            tool_choice: None,
            stream: true,
            temperature: None,
            top_p: None,
            top_k: None,
            stop_sequences: None,
            metadata: None,
            thinking: None,
            output_config: None,
        };
        match convert_request(request).expect("request").input.remove(0) {
            ResponseItem::Reasoning { encrypted_content, .. } => encrypted_content,
            other => panic!("expected reasoning, got {other:?}"),
        }
    };
    assert_eq!(encrypted(synthetic_signature("why")), None);
    assert_eq!(encrypted("sig".to_string()), Some("sig".to_string()));
}

#[test]
fn collector_gathers_the_whole_message() {
    let mut collector = AnthropicStreamCollector::new("model".to_string());
    for event in [created(), reasoning("why"), text("An"), text("swer"), completed("stop")] {
        assert!(collector.has_room());
        collector.process(&event);
    }
    let response = collector.into_response().expect("response");
    assert_eq!(
        response.content,
        vec![
            AnthropicResponseContentBlock::Thinking {
                thinking: "why".to_string(),
                signature: Some(synthetic_signature("why")),
            },
            AnthropicResponseContentBlock::Text { text: "Answer".to_string() },
        ]
    );
    assert_eq!(response.stop_reason, "end_turn");
    let mut collector = AnthropicStreamCollector::new("model".to_string());
    collector.process(&failed());
    assert_eq!(collector.into_response().expect_err("error").message, "gone");
}

#[test]
fn whole_deferred_stream_keeps_to_the_grammar() {
    let mut converter = AnthropicStreamConverter::new("model".to_string());
    let events: Vec<AnthropicStreamEvent> = [
        created(),
        reasoning("why"),
        text("Hi"),
        call_arguments("f", "{}"),
        text("there"),
        completed("stop"),
    ]
    .iter()
    .flat_map(|event| converter.convert(event))
    .collect();
    let starts =
        events.iter().filter(|e| matches!(e, AnthropicStreamEvent::MessageStart { .. })).count();
    assert_eq!(starts, 1);
    let mut open: Option<usize> = None;
    let mut next = 0;
    for event in &events {
        match event {
            AnthropicStreamEvent::ContentBlockStart { index, .. } => {
                assert_eq!((open, *index), (None, next));
                open = Some(*index);
                next += 1;
            }
            AnthropicStreamEvent::ContentBlockDelta { index, .. } => assert_eq!(open, Some(*index)),
            AnthropicStreamEvent::ContentBlockStop { index } => {
                assert_eq!(open, Some(*index));
                open = None;
            }
            _ => {}
        }
    }
    assert_eq!(open, None);
    assert!(next >= 3);
    assert!(matches!(events.last(), Some(AnthropicStreamEvent::MessageStop)));
    assert_eq!(converter.finalize().len(), 0);
}
