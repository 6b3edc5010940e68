//! Reasoning that is held back until it is known what it leads to.
use vstd::prelude::*;

use crate::text::{concat, concatenated};

verus! {

/// Reasoning that is held back, and what decides where it goes.
#[derive(Debug, PartialEq)]
pub struct ReasoningEgressState {
    pub reasoning_buffer: Vec<String>,
    pub reasoning_signature: Option<String>,
    pub has_tool_calls: bool,
    pub content_started: bool,
}

/// The model of [`ReasoningEgressState`].
pub struct ReasoningEgressStateView {
    pub reasoning_buffer: Seq<Seq<char>>,
    pub reasoning_signature: Option<Seq<char>>,
    pub has_tool_calls: bool,
    pub content_started: bool,
}

impl DeepView for ReasoningEgressState {
    type V = ReasoningEgressStateView;

    open spec fn deep_view(&self) -> ReasoningEgressStateView {
        ReasoningEgressStateView {
            reasoning_buffer: self.reasoning_buffer.deep_view(),
            reasoning_signature: self.reasoning_signature.deep_view(),
            has_tool_calls: self.has_tool_calls,
            content_started: self.content_started,
        }
    }
}

impl ReasoningEgressStateView {
    /// Nothing is held back and nothing has been shown.
    pub open spec fn empty() -> Self {
        ReasoningEgressStateView {
            reasoning_buffer: Seq::empty(),
            reasoning_signature: None,
            has_tool_calls: false,
            content_started: false,
        }
    }

    /// Whether reasoning that arrives now is too late: what it should precede is out already.
    pub open spec fn is_late(self) -> bool {
        self.content_started || self.has_tool_calls
    }

    /// Whether the reasoning is the answer itself: nothing else came, it is not signed, and the
    /// model stopped of its own accord.
    pub open spec fn is_answer(self, clean_stop: bool) -> bool {
        clean_stop && !self.content_started && !self.has_tool_calls && self.reasoning_signature is None
    }
}

impl Default for ReasoningEgressState {
    fn default() -> (result: Self)
        ensures
            result.deep_view() == ReasoningEgressStateView::empty(),
    {
        let reasoning_buffer: Vec<String> = Vec::new();
        assert(reasoning_buffer.deep_view() =~= Seq::<Seq<char>>::empty());
        ReasoningEgressState {
            reasoning_buffer,
            reasoning_signature: None,
            has_tool_calls: false,
            content_started: false,
        }
    }
}

impl ReasoningEgressState {
    /// Text or a tool call has been shown.
    pub fn note_content_started(&mut self)
        ensures
            final(self).deep_view() == (ReasoningEgressStateView {
                content_started: true,
                ..old(self).deep_view()
            }),
    {
        self.content_started = true;
    }

    /// The turn calls a tool.
    pub fn note_tool_calls(&mut self)
        ensures
            final(self).deep_view() == (ReasoningEgressStateView {
                has_tool_calls: true,
                ..old(self).deep_view()
            }),
    {
        self.has_tool_calls = true;
    }

    /// Whether reasoning that arrives now is too late.
    pub fn is_late_reasoning(&self) -> (result: bool)
        ensures
            result == self.deep_view().is_late(),
    {
        self.content_started || self.has_tool_calls
    }

    /// Whether reasoning is held back.
    pub fn has_buffered(&self) -> (result: bool)
        ensures
            result == (self.deep_view().reasoning_buffer.len() > 0),
    {
        self.reasoning_buffer.len() > 0
    }

    /// Whether the reasoning is the answer itself.
    pub fn should_promote(&self, clean_stop: bool) -> (result: bool)
        ensures
            result == self.deep_view().is_answer(clean_stop),
    {
        clean_stop && !self.content_started && !self.has_tool_calls
            && self.reasoning_signature.is_none()
    }

    /// Holds back a piece of reasoning.
    pub fn push_reasoning(&mut self, delta: &str)
        ensures
            final(self).deep_view() == (ReasoningEgressStateView {
                reasoning_buffer: old(self).deep_view().reasoning_buffer.push(delta@),
                ..old(self).deep_view()
            }),
    {
        let ghost before = self.reasoning_buffer.deep_view();
        self.reasoning_buffer.push(delta.to_string());
        assert(self.reasoning_buffer.deep_view() =~= before.push(delta@));
    }

    /// Holds back a piece of the signature.
    pub fn push_signature(&mut self, signature: &str)
        ensures
            final(self).deep_view() == (ReasoningEgressStateView {
                reasoning_signature: Some(
                    match old(self).deep_view().reasoning_signature {
                        Some(before) => before + signature@,
                        None => signature@,
                    },
                ),
                ..old(self).deep_view()
            }),
    {
        let whole = match self.reasoning_signature.take() {
            Some(mut before) => {
                before.push_str(signature);
                before
            },
            None => signature.to_string(),
        };
        self.reasoning_signature = Some(whole);
    }

    /// Hands out the signature.
    pub fn take_signature(&mut self) -> (result: Option<String>)
        ensures
            result.deep_view() == old(self).deep_view().reasoning_signature,
            final(self).deep_view() == (ReasoningEgressStateView {
                reasoning_signature: None,
                ..old(self).deep_view()
            }),
    {
        self.reasoning_signature.take()
    }

    /// Hands out the pieces that are held back.
    pub fn take_chunks(&mut self) -> (result: Vec<String>)
        ensures
            result.deep_view() == old(self).deep_view().reasoning_buffer,
            final(self).deep_view() == (ReasoningEgressStateView {
                reasoning_buffer: Seq::empty(),
                ..old(self).deep_view()
            }),
    {
        let mut chunks: Vec<String> = Vec::new();
        std::mem::swap(&mut chunks, &mut self.reasoning_buffer);
        assert(self.reasoning_buffer.deep_view() =~= Seq::<Seq<char>>::empty());
        chunks
    }

    /// Hands out the text that is held back.
    pub fn take_buffer(&mut self) -> (result: String)
        ensures
            result@ == concatenated(old(self).deep_view().reasoning_buffer),
            final(self).deep_view() == (ReasoningEgressStateView {
                reasoning_buffer: Seq::empty(),
                ..old(self).deep_view()
            }),
    {
        let chunks = self.take_chunks();
        concat(&chunks)
    }
}

} // verus!
