use llmconduit::adapters::chat_completions::convert_request;
use llmconduit::duplicate::Duplicate;
use llmconduit::json::{parse_json, Json};
use llmconduit::models::chat::{ChatCompletionRequest, ChatMessage};

fn json(text: &str) -> Json {
    parse_json(text).expect("JSON")
}

#[test]
fn convert_request_preserves_extra_body() {
    let extra_body = vec![(
        "chat_template_kwargs".to_string(),
        json(r#"{ "thinking": true, "preserve_thinking": false }"#),
    )];
    let request = ChatCompletionRequest {
        model: "glm-5.1".to_string(),
        messages: vec![ChatMessage {
            role: "user".to_string(),
            content: Some(Json::Text("hello".to_string())),
            tool_call_id: None,
            name: None,
            reasoning_content: None,
            thinking: None,
            tool_calls: None,
        }],
        stream: true,
        tools: None,
        tool_choice: None,
        parallel_tool_calls: false,
        reasoning_effort: None,
        response_format: None,
        stream_options: None,
        temperature: None,
        top_p: None,
        max_output_tokens: None,
        frequency_penalty: None,
        presence_penalty: None,
        stop: None,
        extra_body: extra_body.duplicate(),
    };

    let converted = convert_request(request).expect("convert request");

    assert_eq!(converted.extra_body, extra_body);
}
