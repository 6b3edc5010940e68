//! Events of the canonical response stream.
use vstd::prelude::*;

use crate::json::{Json, JsonView};

verus! {

/// An event of the canonical response stream: its name and its payload.
#[derive(Debug, PartialEq)]
pub struct SseEvent {
    pub event: String,
    pub data: Json,
}

/// The model of [`SseEvent`].
pub struct SseEventView {
    pub event: Seq<char>,
    pub data: JsonView,
}

impl DeepView for SseEvent {
    type V = SseEventView;

    open spec fn deep_view(&self) -> SseEventView {
        SseEventView { event: self.event@, data: self.data.deep_view() }
    }
}

} // verus!
