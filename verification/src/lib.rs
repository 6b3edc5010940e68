//! Request and response translation for an LLM API gateway.
pub mod adapters;
pub mod cli;
pub mod clock;
pub mod collections;
pub mod compaction;
pub mod config;
pub mod debug_ui;
pub mod digest;
pub mod duplicate;
pub mod error;
pub mod ids;
pub mod json;
pub mod models;
pub mod paths;
pub mod sorting;
pub mod sse;
pub mod text;
