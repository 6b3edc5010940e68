//! The wire types of the APIs that the gateway speaks.
pub mod anthropic;
pub mod chat;
pub mod responses;
pub mod shell_call;
