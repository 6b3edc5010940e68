//! Translations between the APIs that the gateway speaks.
pub mod anthropic_to_responses;
pub mod chat_completions;
pub mod chat_to_responses;
pub mod laws;
pub mod responses_to_anthropic;
pub mod responses_to_chat;
