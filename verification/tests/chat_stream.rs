use llmconduit::adapters::chat_completions::stream::{
    current_unix_timestamp, timestamp_of, ChatCompletionCollector, ChatCompletionStreamConverter,
    ChatSseEvent,
};
use llmconduit::clock::TimeSpan;
use llmconduit::json::{parse_json, render_json};
use llmconduit::sse::SseEvent;

fn event(name: &str, data: &str) -> SseEvent {
    SseEvent { event: name.to_string(), data: parse_json(data).expect("JSON") }
}

fn choices(event: &ChatSseEvent) -> String {
    match event {
        ChatSseEvent::Data(data) => data.get("choices").map(render_json).unwrap_or_default(),
        ChatSseEvent::Done => "done".to_string(),
    }
}

fn converter(include_usage: bool) -> ChatCompletionStreamConverter {
    ChatCompletionStreamConverter::created_at("model".to_string(), include_usage, 1700)
}

fn run(converter: &mut ChatCompletionStreamConverter, events: &[SseEvent]) -> Vec<ChatSseEvent> {
    events.iter().flat_map(|event| converter.convert(event)).collect()
}

#[test]
fn text_is_streamed_after_the_role() {
    let mut converter = converter(true);
    let events = run(
        &mut converter,
        &[
            event("response.created", r#"{"response": {"id": "resp_1"}}"#),
            event("response.reasoning_text.delta", r#"{"delta": "why"}"#),
            event("response.output_text.delta", r#"{"delta": "Hi"}"#),
            event(
                "response.completed",
                r#"{"response": {"usage": {"input_tokens": 3, "output_tokens": 4}}}"#,
            ),
        ],
    );
    let shown: Vec<String> = events.iter().map(choices).collect();
    assert_eq!(
        shown,
        vec![
            r#"[{"delta":{"role":"assistant"},"index":0}]"#,
            r#"[{"delta":{"reasoning_content":"why"},"index":0}]"#,
            r#"[{"delta":{"content":"Hi"},"index":0}]"#,
            r#"[{"delta":{},"finish_reason":"stop","index":0}]"#,
            r#"[]"#,
            "done",
        ]
    );
    match &events[4] {
        ChatSseEvent::Data(data) => {
            assert_eq!(data.get_str("id"), Some("resp_1"));
            assert_eq!(data.get("created").and_then(|n| n.as_i64()), Some(1700));
            let usage = data.get("usage").expect("usage");
            assert_eq!(usage.get("total_tokens").and_then(|n| n.as_i64()), Some(7));
        }
        other => panic!("expected usage, got {other:?}"),
    }
    assert_eq!(events[5].to_sse_data(), "[DONE]");
}

#[test]
fn calls_are_shown_once() {
    let mut converter = converter(false);
    let done = event(
        "response.function_call_arguments.done",
        r#"{"call_id": "c1", "name": "f", "arguments": "{\"a\":1}"}"#,
    );
    let item = event(
        "response.output_item.done",
        r#"{"item": {"type": "function_call", "call_id": "c1", "name": "f", "arguments": "{\"a\":1}"}}"#,
    );
    let events = run(&mut converter, &[done, item, event("response.completed", r#"{"response": {}}"#)]);
    let shown: Vec<String> = events.iter().map(choices).collect();
    assert_eq!(shown.iter().filter(|choice| choice.contains("tool_calls\":[")).count(), 1, "{shown:?}");
    assert!(shown[shown.len() - 2].contains(r#""finish_reason":"tool_calls""#), "{shown:?}");
    assert_eq!(shown.last().map(String::as_str), Some("done"));
}

#[test]
fn collector_answers_with_the_whole_completion() {
    let mut collector = ChatCompletionCollector::new("model".to_string());
    collector.process(&event(
        "response.completed",
        r#"{"response": {"id": "resp_1", "model": "served", "output": [
            {"type": "reasoning", "summary": [{"text": "why"}]},
            {"type": "message", "content": [{"text": "A"}, {"text": "B"}]}
        ]}}"#,
    ));
    let response = collector.into_response().expect("response");
    let message = response
        .get("choices")
        .and_then(|choices| choices.as_array())
        .and_then(|choices| choices[0].get("message"))
        .expect("message");
    assert_eq!(message.get_str("content"), Some("AB"));
    assert_eq!(message.get_str("reasoning_content"), Some("why"));
    assert_eq!(response.get_str("object"), Some("chat.completion"));
}

#[test]
fn collector_reports_failures() {
    let mut collector = ChatCompletionCollector::new("model".to_string());
    collector.process(&event(
        "response.failed",
        r#"{"response": {"error": {"message": "gone"}}}"#,
    ));
    let error = collector.into_response().expect_err("failure");
    assert!(error.message.contains("gone"), "{error:?}");
    let collector = ChatCompletionCollector::new("model".to_string());
    assert!(collector.into_response().is_err());
}

#[test]
fn new_converter_reads_the_clock() {
    let mut converter = ChatCompletionStreamConverter::new("model".to_string(), false);
    let events = converter.convert(&event("response.created", r#"{"response": {}}"#));
    match &events[0] {
        ChatSseEvent::Data(data) => {
            assert!(data.get("created").and_then(|n| n.as_i64()).unwrap_or(0) > 1_600_000_000);
            let id = data.get_str("id").expect("id");
            assert!(id.starts_with("chatcmpl_") && id.len() == 41, "{id}");
        }
        other => panic!("expected the role, got {other:?}"),
    }
}

#[test]
fn timestamps_are_whole_seconds() {
    assert_eq!(timestamp_of(TimeSpan { secs: 1700, nanos: 999_999_999 }), 1700);
    assert_eq!(timestamp_of(TimeSpan { secs: u64::MAX, nanos: 0 }), i64::MAX);
    assert!(current_unix_timestamp() > 1_600_000_000);
}

#[test]
fn whole_stream_begins_with_the_role_and_ends_with_the_mark() {
    let call = |id: &str| {
        event(
            "response.function_call_arguments.done",
            &format!(r#"{{"call_id": "{id}", "name": "f", "arguments": "{{}}"}}"#),
        )
    };
    let cut_off = r#"{"response": {"status": "incomplete"}}"#;
    let details = r#"{"response": {"incomplete_details": {"reason": "max_output_tokens"}}}"#;
    for (name, data, finish) in [
        ("response.completed", r#"{"response": {}}"#, "tool_calls"),
        ("response.incomplete", cut_off, "length"),
        ("response.completed", details, "length"),
    ] {
        let mut converter = converter(false);
        let events = run(
            &mut converter,
            &[
                call("c1"),
                event("response.output_text.delta", r#"{"delta": "a"}"#),
                call("c2"),
                call("c1"),
                event(name, data),
            ],
        );
        let shown: Vec<String> = events.iter().map(choices).collect();
        assert!(shown[0].contains(r#""role":"assistant""#), "{shown:?}");
        assert_eq!(shown.iter().filter(|choice| choice.contains("role")).count(), 1);
        let calls: Vec<&String> =
            shown.iter().filter(|choice| choice.contains(r#""tool_calls":["#)).collect();
        assert_eq!(calls.len(), 2, "{shown:?}");
        assert!(calls[0].contains(r#""id":"c1","index":0"#), "{calls:?}");
        assert!(calls[1].contains(r#""id":"c2","index":1"#), "{calls:?}");
        let finished = format!(r#""finish_reason":"{finish}""#);
        assert!(shown[shown.len() - 2].contains(&finished), "{shown:?}");
        assert_eq!(shown.iter().filter(|choice| choice.as_str() == "done").count(), 1);
        assert_eq!(shown.last().map(String::as_str), Some("done"));
    }
    let mut failing = converter(false);
    let events = run(&mut failing, &[event("response.failed", "{}")]);
    assert_eq!(events.len(), 2);
    assert_eq!(events[1], ChatSseEvent::Done);
}
