use llmconduit::adapters::anthropic_to_responses::convert_request as from_messages;
use llmconduit::adapters::chat_completions::convert_request as from_chat;
use llmconduit::adapters::responses_to_chat::lower_request;
use llmconduit::json::Json;
use llmconduit::models::anthropic::{AnthropicContent, AnthropicMessage, AnthropicRequest};
use llmconduit::models::chat::{ChatCompletionRequest, ChatMessage};

fn message(role: &str, text: &str) -> ChatMessage {
    ChatMessage {
        role: role.to_string(),
        content: Some(Json::Text(text.to_string())),
        tool_call_id: None,
        name: None,
        reasoning_content: None,
        thinking: None,
        tool_calls: None,
    }
}

#[test]
fn chat_messages_come_through() {
    let messages = || vec![message("system", "s"), message("user", "u"), message("assistant", "a")];
    let request = from_chat(ChatCompletionRequest {
        model: "m".to_string(),
        messages: messages(),
        stream: true,
        tools: None,
        tool_choice: None,
        parallel_tool_calls: false,
        reasoning_effort: None,
        response_format: None,
        stream_options: None,
        temperature: None,
        top_p: None,
        max_output_tokens: None,
        frequency_penalty: None,
        presence_penalty: None,
        stop: None,
        extra_body: Vec::new(),
    })
    .expect("request");
    let turn = lower_request(&request, Vec::new()).expect("turn");
    assert_eq!(turn.messages, messages());
}

#[test]
fn prompts_and_answers_come_through() {
    let said = |role: &str, text: &str| AnthropicMessage {
        role: role.to_string(),
        content: AnthropicContent::Text(text.to_string()),
    };
    let request = from_messages(AnthropicRequest {
        model: "m".to_string(),
        max_tokens: None,
        system: None,
        messages: vec![said("user", "Hello there\n"), said("assistant", "Hi")],
        tools: None,
        tool_choice: None,
        stream: true,
        temperature: None,
        top_p: None,
        top_k: None,
        stop_sequences: None,
        metadata: None,
        thinking: None,
        output_config: None,
    })
    .expect("request");
    let turn = lower_request(&request, Vec::new()).expect("turn");
    assert_eq!(
        turn.messages,
        vec![message("user", "Hello there\n"), message("assistant", "Hi")]
    );
}
