//! What the terminal events of a response stream say of the response.
use vstd::prelude::*;

use crate::json::{Json, JsonView};
use crate::models::anthropic::{
    AnthropicMessageUsage, AnthropicMessageUsageView, AnthropicOutputTokensDetails,
    AnthropicOutputTokensDetailsView,
};
use crate::text::same_text;

verus! {

/// The value under `outer` and then `inner`.
pub open spec fn nested(data: JsonView, outer: Seq<char>, inner: Seq<char>) -> Option<JsonView> {
    match data.get(outer) {
        Some(value) => value.get(inner),
        None => None,
    }
}

/// The value under `outer` and then `inner`.
pub fn get_nested<'a>(data: &'a Json, outer: &str, inner: &str) -> (result: Option<&'a Json>)
    ensures
        result.deep_view() == nested(data.deep_view(), outer@, inner@),
{
    match data.get(outer) {
        Some(value) => value.get(inner),
        None => None,
    }
}

/// The text under `key`, or the empty text.
pub open spec fn text_or_empty(data: JsonView, key: Seq<char>) -> Seq<char> {
    match data.get_str(key) {
        Some(text) => text,
        None => Seq::empty(),
    }
}

/// The text under `key`, or the empty text.
pub fn get_text_or_empty<'a>(data: &'a Json, key: &str) -> (result: &'a str)
    ensures
        result@ == text_or_empty(data.deep_view(), key@),
{
    match data.get_str(key) {
        Some(text) => text,
        None => {
            proof {
                reveal_strlit("");
                assert(""@ =~= Seq::<char>::empty());
            }
            ""
        },
    }
}

/// The arguments of a call, `{}` where it has none.
pub open spec fn arguments_text(data: JsonView) -> Seq<char> {
    match data.get_str("arguments"@) {
        Some(text) => text,
        None => "{}"@,
    }
}

/// The arguments of a call, `{}` where it has none.
pub fn get_arguments_text(data: &Json) -> (result: &str)
    ensures
        result@ == arguments_text(data.deep_view()),
{
    match data.get_str("arguments") {
        Some(text) => text,
        None => "{}",
    }
}

/// The number under `key`, where it is an unsigned integer.
pub open spec fn count_under(data: JsonView, key: Seq<char>) -> Option<u64> {
    match data.get(key) {
        Some(value) => match value.as_u64() {
            Some(count) => Some(count as u64),
            None => None,
        },
        None => None,
    }
}

/// The number under `key`, where it is an unsigned integer.
pub fn get_count(data: &Json, key: &str) -> (result: Option<u64>)
    ensures
        result == count_under(data.deep_view(), key@),
{
    match data.get(key) {
        Some(value) => value.as_u64(),
        None => None,
    }
}

/// How a token count of its own is reported.
pub open spec fn token_details(thinking_tokens: Option<u64>) -> Option<AnthropicOutputTokensDetailsView> {
    match thinking_tokens {
        Some(thinking_tokens) => Some(AnthropicOutputTokensDetailsView { thinking_tokens }),
        None => None,
    }
}

/// How a token count of its own is reported.
pub fn make_token_details(thinking_tokens: Option<u64>) -> (result: Option<AnthropicOutputTokensDetails>)
    ensures
        result.deep_view() == token_details(thinking_tokens),
{
    match thinking_tokens {
        Some(thinking_tokens) => Some(AnthropicOutputTokensDetails { thinking_tokens }),
        None => None,
    }
}

/// The usage that the terminal event reports, given how many tokens went into thinking.
pub open spec fn usage_with_details(
    data: JsonView,
    thinking_tokens: Option<u64>,
) -> Option<AnthropicMessageUsageView> {
    match nested(data, "response"@, "usage"@) {
        None => None,
        Some(usage) => match (count_under(usage, "input_tokens"@), count_under(usage, "output_tokens"@)) {
            (Some(input_tokens), Some(output_tokens)) => Some(
                AnthropicMessageUsageView {
                    input_tokens,
                    output_tokens,
                    output_tokens_details: token_details(thinking_tokens),
                },
            ),
            _ => None,
        },
    }
}

/// The usage that the terminal event reports, given how many tokens went into thinking.
pub fn read_usage(data: &Json, thinking_tokens: Option<u64>) -> (result: Option<AnthropicMessageUsage>)
    ensures
        result.deep_view() == usage_with_details(data.deep_view(), thinking_tokens),
{
    match get_nested(data, "response", "usage") {
        None => None,
        Some(usage) => match (get_count(usage, "input_tokens"), get_count(usage, "output_tokens")) {
            (Some(input_tokens), Some(output_tokens)) => Some(
                AnthropicMessageUsage {
                    input_tokens,
                    output_tokens,
                    output_tokens_details: make_token_details(thinking_tokens),
                },
            ),
            _ => None,
        },
    }
}

/// The value under `key` in the details of the output tokens.
pub open spec fn output_detail(data: JsonView, key: Seq<char>) -> Option<JsonView> {
    match nested(data, "response"@, "usage"@) {
        Some(usage) => nested(usage, "output_tokens_details"@, key),
        None => None,
    }
}

/// The value under `key` in the details of the output tokens.
pub fn get_output_detail<'a>(data: &'a Json, key: &str) -> (result: Option<&'a Json>)
    ensures
        result.deep_view() == output_detail(data.deep_view(), key@),
{
    match get_nested(data, "response", "usage") {
        Some(usage) => get_nested(usage, "output_tokens_details", key),
        None => None,
    }
}

/// The stop reason of a response that was cut off.
pub open spec fn stop_reason(data: JsonView) -> Option<Seq<char>> {
    match nested(data, "response"@, "incomplete_details"@) {
        Some(details) => match details.get_str("reason"@) {
            Some(reason) => Some(
                if reason == "max_output_tokens"@ {
                    "max_tokens"@
                } else {
                    reason
                },
            ),
            None => None,
        },
        None => None,
    }
}

/// The stop reason of a response that was cut off.
pub fn response_stop_reason(data: &Json) -> (result: Option<String>)
    ensures
        result.deep_view() == stop_reason(data.deep_view()),
{
    match get_nested(data, "response", "incomplete_details") {
        Some(details) => match details.get_str("reason") {
            Some(reason) => Some(
                if same_text(reason, "max_output_tokens") {
                    "max_tokens".to_string()
                } else {
                    reason.to_string()
                },
            ),
            None => None,
        },
        None => None,
    }
}

/// The stop string that ended a response.
pub open spec fn stop_sequence(data: JsonView) -> Option<Seq<char>> {
    match data.get("response"@) {
        Some(response) => match response.get_str("stop_sequence"@) {
            Some(stop) => if stop.len() > 0 {
                Some(stop)
            } else {
                None
            },
            None => None,
        },
        None => None,
    }
}

/// The stop string that ended a response.
pub fn response_stop_sequence(data: &Json) -> (result: Option<String>)
    ensures
        result.deep_view() == stop_sequence(data.deep_view()),
{
    match data.get("response") {
        Some(response) => match response.get_str("stop_sequence") {
            Some(stop) => if stop.is_empty() {
                None
            } else {
                Some(stop.to_string())
            },
            None => None,
        },
        None => None,
    }
}

/// The text of the error that a response failed with.
pub open spec fn failure_message(data: JsonView) -> Seq<char> {
    match nested(data, "response"@, "error"@) {
        Some(error) => match error.get_str("message"@) {
            Some(message) => message,
            None => "gateway error"@,
        },
        None => "gateway error"@,
    }
}

/// The text of the error that a response failed with.
pub fn response_failure_message(data: &Json) -> (result: String)
    ensures
        result@ == failure_message(data.deep_view()),
{
    match get_nested(data, "response", "error") {
        Some(error) => match error.get_str("message") {
            Some(message) => message.to_string(),
            None => "gateway error".to_string(),
        },
        None => "gateway error".to_string(),
    }
}

/// Why a message ended: because it was cut off, because it calls tools, because a stop string was
/// met, or because it was complete.
pub open spec fn message_end(data: JsonView, has_tool_calls: bool) -> (Seq<char>, Option<JsonView>) {
    match stop_reason(data) {
        Some(reason) => (reason, None),
        None => if has_tool_calls {
            ("tool_use"@, None)
        } else {
            match stop_sequence(data) {
                Some(stop) => ("stop_sequence"@, Some(JsonView::Text(stop))),
                None => ("end_turn"@, None),
            }
        },
    }
}

/// Why a message ended.
pub fn response_message_end(data: &Json, has_tool_calls: bool) -> (result: (String, Option<Json>))
    ensures
        (result.0@, result.1.deep_view()) == message_end(data.deep_view(), has_tool_calls),
{
    match response_stop_reason(data) {
        Some(reason) => (reason, None),
        None => if has_tool_calls {
            ("tool_use".to_string(), None)
        } else {
            match response_stop_sequence(data) {
                Some(stop) => ("stop_sequence".to_string(), Some(Json::Text(stop))),
                None => ("end_turn".to_string(), None),
            }
        },
    }
}

/// Why a message ended whose stream broke off.
pub open spec fn broken_off(has_tool_calls: bool) -> Seq<char> {
    if has_tool_calls {
        "tool_use"@
    } else {
        "end_turn"@
    }
}

/// Why a message ended whose stream broke off.
pub fn broken_off_reason(has_tool_calls: bool) -> (result: String)
    ensures
        result@ == broken_off(has_tool_calls),
{
    if has_tool_calls {
        "tool_use".to_string()
    } else {
        "end_turn".to_string()
    }
}

} // verus!
