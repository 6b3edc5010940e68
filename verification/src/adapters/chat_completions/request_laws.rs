//! What becomes of what a chat client asks: it reaches the Responses API as it was asked.
use vstd::prelude::*;

use crate::json::{json_rendered, JsonView};
use crate::models::chat::{
    ChatCompletionRequestView, ChatMessageView, ChatToolCallView, ChatToolView,
};
use crate::models::responses::{
    ContentItemView, ReasoningContentItemView, ResponseItemView, ToolSpec, ToolSpecView,
};
use crate::sorting::{law_sorting_keeps_values, law_sorting_orders_names, names_ascend};
use crate::text::{joined, trimmed};

use super::{
    call_item, call_items, conversation_items, converted_request, image_url, message_items,
    part_content, part_contents, part_texts, reasoning_items, response_content, said_item,
    tool_spec, tool_specs, MessageIdsView,
};

verus! {

proof fn lemma_roles_differ()
    ensures
        "assistant"@ != "tool"@,
        "assistant"@ != "function"@,
        "user"@ != "assistant"@,
        "user"@ != "tool"@,
        "user"@ != "function"@,
{
    reveal_strlit("assistant");
    reveal_strlit("tool");
    reveal_strlit("function");
    reveal_strlit("user");
    assert("assistant"@.len() == 9);
    assert("tool"@.len() == 4 && "tool"@[0] == 't');
    assert("user"@.len() == 4 && "user"@[0] == 'u');
    assert("function"@.len() == 8);
}

// ---------------------------------------------------------------------------------------------
// Results of tools
// ---------------------------------------------------------------------------------------------

/// The result of a tool is kept under the id of its call, or else under the name that the message
/// gives: a text and any other single value as it is, and nothing as null.
pub proof fn law_results_are_kept(message: ChatMessageView, fresh: MessageIdsView)
    requires
        message.role == "tool"@ || message.role == "function"@,
    ensures
        message.tool_call_id is None && message.name is None ==> message_items(message, fresh)
            is Err,
        message.tool_call_id is Some || message.name is Some ==> {
            &&& message_items(message, fresh) matches Ok(items)
            &&& items.len() == 1
            &&& items[0] matches ResponseItemView::FunctionCallOutput { call_id, output }
            &&& message.tool_call_id is Some ==> Some(call_id) == message.tool_call_id
            &&& message.tool_call_id is None ==> Some(call_id) == message.name
            &&& message.content is None ==> output == JsonView::Null
            &&& message.content is Some && !(message.content->Some_0 is Array) ==> Some(output)
                == message.content
        },
{
}

/// Whether every part is a text.
pub open spec fn all_texts(parts: Seq<JsonView>) -> bool {
    forall|k: int| 0 <= k < parts.len() ==> (#[trigger] parts[k]).get_str("text"@) is Some
}

/// The texts of the parts.
pub open spec fn texts_of(parts: Seq<JsonView>) -> Seq<Seq<char>> {
    Seq::new(parts.len(), |k: int| parts[k].get_str("text"@)->Some_0)
}

proof fn lemma_part_texts(parts: Seq<JsonView>, count: int)
    requires
        all_texts(parts),
        0 <= count <= parts.len(),
    ensures
        part_texts(parts, count) == texts_of(parts).take(count),
    decreases count,
{
    if count > 0 {
        lemma_part_texts(parts, count - 1);
        assert(parts[count - 1].get_str("text"@) is Some);
    }
    assert(part_texts(parts, count) =~= texts_of(parts).take(count));
}

/// A result in several texts is kept as those texts, one to a line, unless they are all empty.
pub proof fn law_result_lines_are_kept(
    message: ChatMessageView,
    fresh: MessageIdsView,
    parts: Seq<JsonView>,
)
    requires
        message.role == "tool"@ || message.role == "function"@,
        message.tool_call_id is Some,
        message.content == Some(JsonView::Array(parts)),
        all_texts(parts),
    ensures
        ({
            let text = joined(texts_of(parts), "\n"@);
            &&& message_items(message, fresh) matches Ok(items)
            &&& items.len() == 1
            &&& items[0] matches ResponseItemView::FunctionCallOutput { call_id, output }
            &&& text.len() > 0 ==> output == JsonView::Text(text)
            &&& text.len() == 0 ==> output == JsonView::Array(parts)
        }),
{
    lemma_part_texts(parts, parts.len() as int);
    assert(texts_of(parts).take(parts.len() as int) =~= texts_of(parts));
}

// ---------------------------------------------------------------------------------------------
// What the assistant did
// ---------------------------------------------------------------------------------------------

/// Whether an item is the given call: its name, its id where it has one, and its arguments.
pub open spec fn is_call(item: ResponseItemView, call: ChatToolCallView) -> bool {
    &&& item matches ResponseItemView::FunctionCall { id, name, namespace, arguments, call_id }
    &&& Some(name) == call.function.name
    &&& namespace is None
    &&& call.id is Some ==> Some(call_id) == call.id
    &&& match call.function.arguments {
        Some(JsonView::Text(text)) => if trimmed(text).len() > 0 {
            arguments == text
        } else {
            arguments == "{}"@
        },
        Some(value) => arguments == json_rendered(value),
        None => arguments == "{}"@,
    }
}

proof fn lemma_call_items(calls: Seq<ChatToolCallView>, fresh: Seq<Seq<char>>, count: int)
    requires
        0 <= count <= calls.len(),
    ensures
        call_items(calls, fresh, count) matches Ok(items) ==> items.len() == count && forall|k: int|
            0 <= k < count ==> is_call(#[trigger] items[k], calls[k]),
        (forall|k: int| 0 <= k < count ==> (#[trigger] calls[k]).function.name is Some)
            <==> call_items(calls, fresh, count) is Ok,
    decreases count,
{
    if count > 0 {
        lemma_call_items(calls, fresh, count - 1);
        if call_items(calls, fresh, count) is Ok {
            let before = call_items(calls, fresh, count - 1)->Ok_0;
            let items = call_items(calls, fresh, count)->Ok_0;
            assert(items == before.push(call_item(calls[count - 1], fresh[count - 1])->Ok_0));
            assert forall|k: int| 0 <= k < count implies is_call(#[trigger] items[k], calls[k]) by {
                if k < count - 1 {
                    assert(items[k] == before[k]);
                }
            }
            assert forall|k: int| 0 <= k < count implies (#[trigger] calls[k]).function.name
                is Some by {
                if k < count - 1 {
                    assert(call_items(calls, fresh, count - 1) is Ok);
                }
            }
        } else if call_items(calls, fresh, count - 1) is Ok {
            assert(calls[count - 1].function.name is None);
        }
    }
}

/// The calls of an assistant message are kept one by one and in their order, behind its reasoning and
/// its words; a call without a name is refused.
pub proof fn law_calls_are_kept(message: ChatMessageView, fresh: MessageIdsView, at: int)
    requires
        message.role == "assistant"@,
        message.tool_calls is Some,
        0 <= at < message.tool_calls->Some_0.len(),
    ensures
        ({
            let calls = message.tool_calls->Some_0;
            let items = message_items(message, fresh);
            &&& items is Ok <==> forall|k: int|
                0 <= k < calls.len() ==> (#[trigger] calls[k]).function.name is Some
            &&& items is Ok ==> items->Ok_0.len() >= calls.len() && is_call(
                items->Ok_0[items->Ok_0.len() - calls.len() + at],
                calls[at],
            )
        }),
{
    lemma_roles_differ();
    let calls = message.tool_calls->Some_0;
    lemma_call_items(calls, fresh.calls, calls.len() as int);
    if message_items(message, fresh) is Ok {
        let made = call_items(calls, fresh.calls, calls.len() as int)->Ok_0;
        let items = message_items(message, fresh)->Ok_0;
        assert(items[items.len() - calls.len() + at] == made[at]);
        assert(is_call(made[at], calls[at]));
    }
}

/// The reasoning of an assistant message is kept word for word, in front of what it led to.
pub proof fn law_reasoning_is_kept(
    message: ChatMessageView,
    fresh: MessageIdsView,
    text: Seq<char>,
)
    requires
        message.role == "assistant"@,
        message.reasoning_content == Some(text),
        text.len() > 0,
        message_items(message, fresh) is Ok,
    ensures
        ({
            let items = message_items(message, fresh)->Ok_0;
            &&& items.len() > 0
            &&& items[0] matches ResponseItemView::Reasoning {
                id,
                summary,
                content,
                encrypted_content,
            }
            &&& content == Some(seq![ReasoningContentItemView::ReasoningText { text }])
            &&& summary.len() == 0
            &&& encrypted_content is None
        }),
{
    lemma_roles_differ();
}

/// The words of an assistant message are kept between its reasoning and its calls.
pub proof fn law_assistant_words_are_kept(
    message: ChatMessageView,
    fresh: MessageIdsView,
    text: Seq<char>,
)
    requires
        message.role == "assistant"@,
        message.content == Some(JsonView::Text(text)),
        message_items(message, fresh) is Ok,
    ensures
        ({
            let items = message_items(message, fresh)->Ok_0;
            let at = if message.reasoning_content is Some
                && message.reasoning_content->Some_0.len() > 0 {
                1int
            } else {
                0int
            };
            &&& items.len() > at
            &&& items[at] matches ResponseItemView::Message { id, role, content, phase }
            &&& role == "assistant"@
            &&& content == seq![ContentItemView::OutputText { text }]
        }),
{
    lemma_roles_differ();
    let reasoning = reasoning_items(message, fresh.reasoning);
    let items = message_items(message, fresh)->Ok_0;
    assert(response_content(message.role, message.content).len() == 1);
    assert(items[reasoning.len() as int] == said_item(message));
}

// ---------------------------------------------------------------------------------------------
// What others said
// ---------------------------------------------------------------------------------------------

/// What somebody else said is kept as one message of theirs: a text word for word, and what is
/// neither text nor parts as its JSON text.
pub proof fn law_words_are_kept(message: ChatMessageView, fresh: MessageIdsView)
    requires
        message.role != "tool"@,
        message.role != "function"@,
        message.role != "assistant"@,
    ensures
        ({
            &&& message_items(message, fresh) matches Ok(items)
            &&& items.len() == 1
            &&& items[0] matches ResponseItemView::Message { id, role, content, phase }
            &&& role == message.role
            &&& message.content matches Some(JsonView::Text(text)) ==> content == seq![
                ContentItemView::InputText { text },
            ]
            &&& message.content is None ==> content.len() == 0
            &&& message.content matches Some(JsonView::Object(map)) ==> content == seq![
                ContentItemView::InputText { text: json_rendered(JsonView::Object(map)) },
            ]
        }),
{
}

/// Whether each part has a form of its own: a text, an image with an address, or a file.
pub open spec fn whole_parts(parts: Seq<JsonView>) -> bool {
    forall|k: int|
        0 <= k < parts.len() ==> {
            ||| is_text_part(#[trigger] parts[k])
            ||| is_image_part(parts[k])
            ||| parts[k].get_str("type"@) == Some("input_file"@)
        }
}

/// A part that is a text.
pub open spec fn is_text_part(part: JsonView) -> bool {
    &&& part.get_str("type"@) == Some("text"@) || part.get_str("type"@) == Some("input_text"@)
    &&& part.get_str("text"@) is Some
}

/// A part that is an image with an address.
pub open spec fn is_image_part(part: JsonView) -> bool {
    &&& part.get_str("type"@) == Some("image_url"@)
    &&& part.get("image_url"@) matches Some(address)
    &&& address.get_str("url"@) is Some || address is Text
}

/// Whether a content is the given part: a text word for word, an image by its address and the care
/// to look at it with, a file by all that names it.
pub open spec fn is_part(content: ContentItemView, part: JsonView) -> bool {
    if is_text_part(part) {
        content == (ContentItemView::InputText { text: part.get_str("text"@)->Some_0 })
    } else if is_image_part(part) {
        &&& content matches ContentItemView::InputImage { image_url, file_id, detail }
        &&& file_id is None
        &&& match part.get("image_url"@)->Some_0 {
            JsonView::Text(url) => image_url == Some(url),
            address => image_url == address.get_str("url"@),
        }
        &&& part.get_str("detail"@) is Some ==> detail == part.get_str("detail"@)
        &&& part.get_str("detail"@) is None ==> detail == part.get(
            "image_url"@,
        )->Some_0.get_str("detail"@)
    } else {
        &&& content matches ContentItemView::InputFile { file_id, file_url, filename, file_data }
        &&& file_id == part.get_str("file_id"@)
        &&& file_url == part.get_str("file_url"@)
        &&& filename == part.get_str("filename"@)
        &&& file_data == part.get_str("file_data"@)
    }
}

proof fn lemma_part_kinds_differ()
    ensures
        "text"@ != "image_url"@,
        "input_text"@ != "image_url"@,
        "input_file"@ != "image_url"@,
        "input_file"@ != "text"@,
        "input_file"@ != "input_text"@,
        "input_file"@ != "output_text"@,
        "input_file"@ != "input_image"@,
        "image_url"@ != "output_text"@,
{
    reveal_strlit("text");
    reveal_strlit("input_text");
    reveal_strlit("output_text");
    reveal_strlit("image_url");
    reveal_strlit("input_file");
    reveal_strlit("input_image");
    assert("text"@.len() == 4);
    assert("input_text"@.len() == 10 && "input_text"@[6] == 't');
    assert("input_file"@.len() == 10 && "input_file"@[6] == 'f');
    assert("output_text"@.len() == 11);
    assert("input_image"@.len() == 11);
    assert("image_url"@.len() == 9);
}

proof fn lemma_parts_kept(role: Seq<char>, parts: Seq<JsonView>, count: int)
    requires
        role != "assistant"@,
        whole_parts(parts),
        0 <= count <= parts.len(),
    ensures
        part_contents(role, parts, count).len() == count,
        forall|k: int|
            0 <= k < count ==> is_part(#[trigger] part_contents(role, parts, count)[k], parts[k]),
    decreases count,
{
    if count > 0 {
        lemma_parts_kept(role, parts, count - 1);
        lemma_part_kinds_differ();
        let part = parts[count - 1];
        assert(is_text_part(part) || is_image_part(part) || part.get_str("type"@) == Some(
            "input_file"@,
        ));
        let before = part_contents(role, parts, count - 1);
        let all = part_contents(role, parts, count);
        assert(super::part_content(role, part) is Some);
        assert(all == before.push(super::part_content(role, part)->Some_0));
        assert forall|k: int| 0 <= k < count implies is_part(#[trigger] all[k], parts[k]) by {
            if k < count - 1 {
                assert(all[k] == before[k]);
            }
        }
    }
}

/// The parts of a message are kept one by one and in their order.
pub proof fn law_parts_are_kept(message: ChatMessageView, fresh: MessageIdsView, parts: Seq<JsonView>)
    requires
        message.role != "tool"@,
        message.role != "function"@,
        message.role != "assistant"@,
        message.content == Some(JsonView::Array(parts)),
        whole_parts(parts),
    ensures
        ({
            &&& message_items(message, fresh) matches Ok(items)
            &&& items.len() == 1
            &&& items[0] matches ResponseItemView::Message { id, role, content, phase }
            &&& role == message.role
            &&& content.len() == parts.len()
            &&& forall|k: int| 0 <= k < parts.len() ==> is_part(#[trigger] content[k], parts[k])
        }),
{
    lemma_parts_kept(message.role, parts, parts.len() as int);
}

// ---------------------------------------------------------------------------------------------
// Whole requests
// ---------------------------------------------------------------------------------------------

/// Each message of a conversation stands behind those before it and in front of those after it, and
/// one that is refused refuses the conversation.
pub proof fn law_messages_are_kept_in_order(
    messages: Seq<ChatMessageView>,
    fresh: Seq<MessageIdsView>,
    count: int,
    at: int,
)
    requires
        0 <= at < count,
    ensures
        conversation_items(messages, fresh, count) matches Ok(all) ==> {
            &&& conversation_items(messages, fresh, at) matches Ok(before)
            &&& message_items(messages[at], fresh[at]) matches Ok(items)
            &&& before.len() + items.len() <= all.len()
            &&& all.subrange(before.len() as int, (before.len() + items.len()) as int) == items
            &&& all.take(before.len() as int) == before
        },
        message_items(messages[at], fresh[at]) is Err ==> conversation_items(
            messages,
            fresh,
            count,
        ) is Err,
    decreases count,
{
    if at < count - 1 {
        law_messages_are_kept_in_order(messages, fresh, count - 1, at);
        if let Ok(all) = conversation_items(messages, fresh, count) {
            let earlier = conversation_items(messages, fresh, count - 1)->Ok_0;
            let before = conversation_items(messages, fresh, at)->Ok_0;
            let items = message_items(messages[at], fresh[at])->Ok_0;
            let last = message_items(messages[count - 1], fresh[count - 1])->Ok_0;
            assert(all == earlier + last);
            assert(all.subrange(before.len() as int, (before.len() + items.len()) as int)
                =~= earlier.subrange(before.len() as int, (before.len() + items.len()) as int));
            assert(all.take(before.len() as int) =~= earlier.take(before.len() as int));
        }
    } else if let Ok(all) = conversation_items(messages, fresh, count) {
        let before = conversation_items(messages, fresh, at)->Ok_0;
        let items = message_items(messages[at], fresh[at])->Ok_0;
        assert(all == before + items);
        assert(all.subrange(before.len() as int, (before.len() + items.len()) as int) =~= items);
        assert(all.take(before.len() as int) =~= before);
    }
}

/// Whether a tool is offered as it was declared: under its name, with its description, its strictness
/// and its parameters. Only the search tool is run by the server instead.
pub open spec fn offers(tool: ToolSpecView, declared: ChatToolView) -> bool {
    if declared.kind == "function"@ && declared.function.name == "web_search"@ {
        tool is WebSearch
    } else {
        &&& tool matches ToolSpecView::Function { name, description, strict, parameters }
        &&& name == declared.function.name
        &&& description == declared.function.description
        &&& strict == declared.function.strict
        &&& declared.function.parameters is Some ==> Some(parameters)
            == declared.function.parameters
    }
}

/// Each declared tool is offered as it was declared, nothing else is offered, and the names ascend.
pub proof fn law_tools_are_offered_as_declared(tools: Seq<ChatToolView>)
    ensures
        ({
            let offered = tool_specs(Some(tools));
            &&& offered.len() == tools.len()
            &&& names_ascend::<ToolSpec>(offered)
            &&& forall|k: int|
                0 <= k < tools.len() ==> exists|at: int|
                    0 <= at < offered.len() && offers(#[trigger] offered[at], #[trigger] tools[k])
            &&& forall|at: int|
                0 <= at < offered.len() ==> exists|k: int|
                    0 <= k < tools.len() && offers(#[trigger] offered[at], #[trigger] tools[k])
        }),
        tool_specs(None).len() == 0,
{
    broadcast use vstd::seq_lib::group_to_multiset_ensures;

    let specs = tools.map_values(|tool: ChatToolView| tool_spec(tool));
    let offered = tool_specs(Some(tools));
    law_sorting_keeps_values::<ToolSpec>(specs);
    law_sorting_orders_names::<ToolSpec>(specs);
    law_sorting_keeps_values::<ToolSpec>(Seq::<ToolSpecView>::empty());
    assert forall|k: int| 0 <= k < tools.len() implies exists|at: int|
        0 <= at < offered.len() && offers(#[trigger] offered[at], #[trigger] tools[k]) by {
        assert(specs[k] == tool_spec(tools[k]));
        assert(specs.contains(specs[k]));
        assert(specs.to_multiset().count(specs[k]) > 0);
        assert(offered.to_multiset().count(specs[k]) > 0);
        assert(offered.contains(specs[k]));
        let at = choose|at: int| 0 <= at < offered.len() && offered[at] == specs[k];
        assert(offers(offered[at], tools[k]));
    }
    assert forall|at: int| 0 <= at < offered.len() implies exists|k: int|
        0 <= k < tools.len() && offers(#[trigger] offered[at], #[trigger] tools[k]) by {
        assert(offered.contains(offered[at]));
        assert(offered.to_multiset().count(offered[at]) > 0);
        assert(specs.to_multiset().count(offered[at]) > 0);
        assert(specs.contains(offered[at]));
        let k = choose|k: int| 0 <= k < specs.len() && specs[k] == offered[at];
        assert(offers(offered[at], tools[k]));
    }
}

/// The settings of a request are those that the client asked for.
pub proof fn law_settings_are_kept(
    request: ChatCompletionRequestView,
    fresh: Seq<MessageIdsView>,
)
    requires
        converted_request(request, fresh) is Ok,
    ensures
        ({
            let made = converted_request(request, fresh)->Ok_0;
            &&& made.model == request.model
            &&& made.temperature == request.temperature
            &&& made.top_p == request.top_p
            &&& made.max_output_tokens == request.max_output_tokens
            &&& made.frequency_penalty == request.frequency_penalty
            &&& made.presence_penalty == request.presence_penalty
            &&& made.stop == request.stop
            &&& made.parallel_tool_calls == request.parallel_tool_calls
            &&& made.extra_body == request.extra_body
            &&& request.tool_choice is Some ==> Some(made.tool_choice) == request.tool_choice
            &&& request.tool_choice is None ==> made.tool_choice == JsonView::Text("auto"@)
            &&& request.reasoning_effort is Some ==> made.reasoning is Some
                && made.reasoning->Some_0.effort == request.reasoning_effort
            &&& request.reasoning_effort is None ==> made.reasoning is None
            &&& made.instructions.len() == 0
            &&& made.previous_response_id is None
            &&& !made.store
            &&& made.stream
            &&& conversation_items(
                request.messages,
                fresh,
                request.messages.len() as int,
            ) matches Ok(input) && made.input == input
            &&& made.tools == tool_specs(request.tools)
        }),
{
}

/// A schema that the client asks for is asked of the model under its name, as strictly as the client
/// asks for it; another format is not asked for.
pub proof fn law_schemas_are_kept(
    request: ChatCompletionRequestView,
    fresh: Seq<MessageIdsView>,
    format: JsonView,
    declared: JsonView,
)
    requires
        converted_request(request, fresh) is Ok,
        request.response_format == Some(format),
        format.get("json_schema"@) == Some(declared),
        declared is Object,
    ensures
        ({
            let made = converted_request(request, fresh)->Ok_0.text;
            &&& format.get_str("type"@) == Some("json_schema"@) ==> {
                &&& made matches Some(controls)
                &&& controls.format matches Some(asked)
                &&& asked.kind == "json_schema"@
                &&& declared.get("schema"@) is Some ==> Some(asked.schema) == declared.get(
                    "schema"@,
                )
                &&& declared.get_str("name"@) is Some ==> Some(asked.name) == declared.get_str(
                    "name"@,
                )
                &&& asked.strict <==> declared.get("strict"@) == Some(JsonView::Bool(true))
            }
            &&& format.get_str("type"@) != Some("json_schema"@) ==> made is None
        }),
{
}

// ---------------------------------------------------------------------------------------------
// Parts one by one
// ---------------------------------------------------------------------------------------------

proof fn lemma_more_kinds_differ()
    ensures
        "output_text"@ != "image_url"@,
        "input_image"@ != "image_url"@,
        "input_image"@ != "text"@,
        "input_image"@ != "input_text"@,
        "input_image"@ != "output_text"@,
{
    reveal_strlit("text");
    reveal_strlit("input_text");
    reveal_strlit("output_text");
    reveal_strlit("image_url");
    reveal_strlit("input_image");
    assert("text"@.len() == 4);
    assert("input_text"@.len() == 10);
    assert("output_text"@.len() == 11 && "output_text"@[0] == 'o');
    assert("input_image"@.len() == 11 && "input_image"@[0] == 'i');
    assert("image_url"@.len() == 9);
}

/// Whether a part says a text, under any of its three names.
pub open spec fn says(part: JsonView, text: Seq<char>) -> bool {
    &&& part.get_str("type"@) == Some("text"@) || part.get_str("type"@) == Some("input_text"@)
        || part.get_str("type"@) == Some("output_text"@)
    &&& part.get_str("text"@) == Some(text)
}

/// What the assistant said stays text: a text word for word, and anything else as its JSON text.
pub proof fn law_assistant_parts_are_texts(part: JsonView, text: Seq<char>)
    requires
        part is Object,
    ensures
        says(part, text) ==> part_content("assistant"@, part) == Some(
            ContentItemView::OutputText { text },
        ),
        part.get_str("type"@) == Some("image_url"@) && image_url(part) is Some ==> part_content(
            "assistant"@,
            part,
        ) == Some(ContentItemView::OutputText { text: json_rendered(part) }),
        part.get_str("type"@) != Some("text"@) && part.get_str("type"@) != Some("input_text"@)
            && part.get_str("type"@) != Some("output_text"@) && part.get_str("type"@) != Some(
            "image_url"@,
        ) ==> part_content("assistant"@, part) == Some(
            ContentItemView::OutputText { text: json_rendered(part) },
        ),
{
    lemma_part_kinds_differ();
    lemma_more_kinds_differ();
}

/// What others sent stays what it is: a text, an image under its address or its file, and what has no
/// form of its own as it came.
pub proof fn law_other_parts_are_kept(role: Seq<char>, part: JsonView, text: Seq<char>)
    requires
        role != "assistant"@,
        part is Object,
    ensures
        says(part, text) ==> part_content(role, part) == Some(ContentItemView::InputText { text }),
        part.get_str("type"@) == Some("input_image"@) ==> {
            &&& part_content(role, part) matches Some(ContentItemView::InputImage {
                image_url: shown,
                file_id,
                detail,
            })
            &&& shown == image_url(part)
            &&& file_id == part.get_str("file_id"@)
            &&& part.get_str("detail"@) is Some ==> detail == part.get_str("detail"@)
        },
        part.get_str("type"@) is None ==> part_content(role, part) == Some(
            ContentItemView::Other(part),
        ),
{
    lemma_part_kinds_differ();
    lemma_more_kinds_differ();
}

/// The address of an image is found as a text, inside an object, or beside it.
pub proof fn law_image_addresses_are_found(part: JsonView, url: Seq<char>)
    ensures
        part.get("image_url"@) == Some(JsonView::Text(url)) ==> image_url(part) == Some(url),
        part.get("image_url"@) matches Some(inner) ==> inner.get_str("url"@) == Some(url)
            ==> image_url(part) == Some(url),
        part.get("image_url"@) is None && part.get_str("url"@) == Some(url) ==> image_url(part)
            == Some(url),
{
}

/// A part of a result that is no text stands on its line as JSON; null stands on none.
pub proof fn law_other_results_are_kept(
    message: ChatMessageView,
    fresh: MessageIdsView,
    part: JsonView,
)
    requires
        message.role == "tool"@ || message.role == "function"@,
        message.tool_call_id is Some,
        message.content == Some(JsonView::Array(seq![part])),
        part.get_str("text"@) is None,
    ensures
        ({
            &&& message_items(message, fresh) matches Ok(items)
            &&& items[0] matches ResponseItemView::FunctionCallOutput { call_id, output }
            &&& part == JsonView::Null ==> output == JsonView::Array(seq![part])
            &&& part != JsonView::Null && json_rendered(part).len() > 0 ==> output
                == JsonView::Text(json_rendered(part))
        }),
{
    reveal_with_fuel(part_texts, 2);
    reveal_with_fuel(joined, 2);
    let texts = part_texts(seq![part], 1);
    if part == JsonView::Null {
        assert(texts =~= Seq::empty());
    } else {
        assert(texts =~= seq![json_rendered(part)]);
    }
}

/// A call without an id gets one that is marked as that of a call.
pub proof fn law_calls_without_an_id_get_one(call: ChatToolCallView, fresh: Seq<char>)
    requires
        call.id is None,
        call.function.name is Some,
    ensures
        call_item(call, fresh) matches Ok(ResponseItemView::FunctionCall {
            id,
            name,
            namespace,
            arguments,
            call_id,
        }) && call_id == "call"@ + "_"@ + fresh,
{
}

/// A tool without parameters is offered as one that takes an object with no properties, and the
/// search tool as one that may go out to the web.
pub proof fn law_bare_tools_are_offered(tool: ChatToolView)
    ensures
        tool.function.name != "web_search"@ && tool.function.parameters is None ==> (tool_spec(
            tool,
        ) matches ToolSpecView::Function { name, description, strict, parameters }
            && parameters.get_str("type"@) == Some("object"@) && parameters.get("properties"@)
            == Some(JsonView::Object(Map::empty()))),
        tool.function.name == "web_search"@ && tool.kind == "function"@ ==> (tool_spec(
            tool,
        ) matches ToolSpecView::WebSearch {
            external_web_access,
            filters,
            user_location,
            search_context_size,
            search_content_types,
        } && external_web_access == Some(true)),
        tool.kind != "function"@ ==> tool_spec(tool) is Function,
{
    reveal_strlit("type");
    reveal_strlit("properties");
    assert("type"@.len() == 4);
    assert("properties"@.len() == 10);
}

/// A schema that is asked for without a name is asked for as the response, and one that says nothing
/// allows any object.
pub proof fn law_bare_schemas_are_asked_for(
    request: ChatCompletionRequestView,
    fresh: Seq<MessageIdsView>,
    format: JsonView,
    declared: JsonView,
)
    requires
        converted_request(request, fresh) is Ok,
        request.response_format == Some(format),
        format.get_str("type"@) == Some("json_schema"@),
        format.get("json_schema"@) == Some(declared),
        declared is Object,
    ensures
        ({
            &&& converted_request(request, fresh)->Ok_0.text matches Some(controls)
            &&& controls.format matches Some(asked)
            &&& declared.get("schema"@) is None ==> asked.schema == JsonView::Object(Map::empty())
            &&& declared.get("name"@) is None ==> asked.name == "response"@
            &&& controls.verbosity is None
        }),
{
}

} // verus!
