//! What a model gets to read of a conversation: every message, call and result, in the words in which
//! it came.
use vstd::prelude::*;

use crate::config::laws::law_numbers_are_read_as_written;
use crate::error::bad_request;
use crate::json::{json_parsed, json_rendered, JsonView};
use crate::models::chat::{ChatMessageView, ChatToolView};
use crate::models::responses::{
    ContentItemView, LocalShellActionView, NamespaceToolSpecView, ReasoningContentItemView,
    ReasoningSummaryItemView, ResponseItemView, ResponsesRequestView, ToolSpecView,
    WebSearchActionView,
};
use crate::sorting::law_sorting_keeps_values;
use crate::text::{decimal, joined, lowered, trimmed};

use super::content::filled;
use super::tools::{
    all_chat_tools, all_tool_kinds, chat_tools, kind_names, kinds_by_name, lowered_tools,
    tool_kinds, tool_registry, ToolKindView,
};
use super::{
    conversation, hoisted, lowered_item, lowered_items, lowered_request, message_texts,
    system_prefix, Lowering,
};

verus! {

// ---------------------------------------------------------------------------------------------
// Results
// ---------------------------------------------------------------------------------------------

/// Whether `after` is `before` and one more message that carries `text` as the result of a call.
pub open spec fn answers_call(
    before: Lowering,
    after: Lowering,
    call_id: Option<Seq<char>>,
    text: Seq<char>,
) -> bool {
    let last = after.messages.last();
    &&& after.messages.len() == before.messages.len() + 1
    &&& after.messages.drop_last() == before.messages
    &&& after.pending == before.pending
    &&& last.role == "tool"@
    &&& last.tool_call_id == call_id
    &&& last.content == Some(JsonView::Text(text))
    &&& last.tool_calls is None
    &&& last.reasoning_content is None
}

/// The result of a call reaches the model under the id of the call: a text word for word, and any
/// other value as JSON text.
pub proof fn law_results_reach_the_model(state: Lowering, call_id: Seq<char>, output: JsonView)
    ensures
        ({
            let text = match output {
                JsonView::Text(text) => text,
                other => json_rendered(other),
            };
            &&& lowered_item(state, ResponseItemView::FunctionCallOutput { call_id, output }) matches Ok(
                after,
            ) && answers_call(state, after, Some(call_id), text)
            &&& forall|name: Option<Seq<char>>|
                (#[trigger] lowered_item(
                    state,
                    ResponseItemView::CustomToolCallOutput { call_id, name, output },
                )) matches Ok(after) && answers_call(state, after, Some(call_id), text)
        }),
{
    let after = lowered_item(
        state,
        ResponseItemView::FunctionCallOutput { call_id, output },
    )->Ok_0;
    assert(after.messages.drop_last() =~= state.messages);
    assert forall|name: Option<Seq<char>>|
        (#[trigger] lowered_item(
            state,
            ResponseItemView::CustomToolCallOutput { call_id, name, output },
        )) matches Ok(after) && answers_call(
            state,
            after,
            Some(call_id),
            match output {
                JsonView::Text(text) => text,
                other => json_rendered(other),
            },
        ) by {
        let after = lowered_item(
            state,
            ResponseItemView::CustomToolCallOutput { call_id, name, output },
        )->Ok_0;
        assert(after.messages.drop_last() =~= state.messages);
    }
}

/// What a tool search found reaches the model with its state and the tools that were found.
pub proof fn law_found_tools_reach_the_model(
    state: Lowering,
    call_id: Option<Seq<char>>,
    status: Seq<char>,
    execution: Seq<char>,
    tools: Seq<JsonView>,
)
    ensures
        ({
            let after = lowered_item(
                state,
                ResponseItemView::ToolSearchOutput { call_id, status, execution, tools },
            );
            &&& after is Ok
            &&& exists|found: JsonView|
                {
                    &&& found.get("tools"@) == Some(JsonView::Array(tools))
                    &&& found.get_str("status"@) == Some(status)
                    &&& found.get_str("execution"@) == Some(execution)
                    &&& answers_call(state, after->Ok_0, call_id, #[trigger] json_rendered(found))
                }
        }),
{
    let found = JsonView::Object(
        map![
            "status"@ => JsonView::Text(status),
            "execution"@ => JsonView::Text(execution),
            "tools"@ => JsonView::Array(tools),
        ],
    );
    reveal_strlit("status");
    reveal_strlit("execution");
    reveal_strlit("tools");
    assert("status"@.len() == 6);
    assert("execution"@.len() == 9);
    assert("tools"@.len() == 5);
    let after = lowered_item(
        state,
        ResponseItemView::ToolSearchOutput { call_id, status, execution, tools },
    )->Ok_0;
    assert(after.messages.drop_last() =~= state.messages);
    assert(answers_call(state, after, call_id, json_rendered(found)));
}

// ---------------------------------------------------------------------------------------------
// Calls
// ---------------------------------------------------------------------------------------------

/// Whether the last message of `after` is the assistant's, and its last call is the given one, behind
/// all the calls that it had before; every other message is as it was before.
pub open spec fn makes_call(
    before: Lowering,
    after: Lowering,
    call_id: Seq<char>,
    name: Seq<char>,
    arguments: JsonView,
) -> bool {
    let last = after.messages.last();
    &&& after.messages.len() > 0
    &&& after.pending is None
    &&& last.role == "assistant"@
    &&& last.tool_calls matches Some(calls)
    &&& calls.len() > 0
    &&& calls.last().id == Some(call_id)
    &&& calls.last().kind == "function"@
    &&& calls.last().function.name == Some(name)
    &&& calls.last().function.arguments == Some(arguments)
    &&& {
        ||| {
            &&& after.messages.drop_last() == before.messages
            &&& calls.len() == 1
            &&& last.content is None
        }
        ||| {
            &&& before.messages.len() == after.messages.len()
            &&& after.messages.drop_last() == before.messages.drop_last()
            &&& before.messages.last().role == "assistant"@
            &&& last.content == before.messages.last().content
            &&& calls.drop_last() == (match before.messages.last().tool_calls {
                Some(earlier) => earlier,
                None => Seq::empty(),
            })
        }
    }
}

proof fn lemma_makes_call(state: Lowering, call_id: Seq<char>, name: Seq<char>, arguments: JsonView)
    ensures
        makes_call(
            state,
            super::after_call(state, call_id, name, arguments),
            call_id,
            name,
            arguments,
        ),
{
    let after = super::after_call(state, call_id, name, arguments);
    if state.messages.len() > 0 && super::takes_tool_calls(state.messages.last()) {
        assert(after.messages.drop_last() =~= state.messages.drop_last());
        let calls = after.messages.last().tool_calls->0;
        assert(calls.drop_last() =~= super::calls_of(state.messages.last()));
    } else {
        assert(after.messages.drop_last() =~= state.messages);
    }
}

/// A call of a function reaches the model under its id and its name, with the arguments that its text
/// stands for; text that stands for nothing is refused.
pub proof fn law_calls_reach_the_model(
    state: Lowering,
    id: Option<Seq<char>>,
    name: Seq<char>,
    namespace: Option<Seq<char>>,
    arguments: Seq<char>,
    call_id: Seq<char>,
)
    ensures
        ({
            let after = lowered_item(
                state,
                ResponseItemView::FunctionCall { id, name, namespace, arguments, call_id },
            );
            match json_parsed(arguments) {
                Ok(value) => after matches Ok(after) && makes_call(
                    state,
                    after,
                    call_id,
                    name,
                    value,
                ),
                Err(message) => after == Err::<Lowering, crate::error::AppErrorView>(
                    bad_request("invalid JSON tool arguments: "@ + message),
                ),
            }
        }),
{
    if let Ok(value) = json_parsed(arguments) {
        lemma_makes_call(state, call_id, name, value);
    }
}

/// The arguments of the last call of a conversation.
pub open spec fn last_arguments(state: Lowering) -> JsonView {
    state.messages.last().tool_calls->0.last().function.arguments->0
}

/// A call of a custom tool reaches the model under its id and its name, with its input word for word.
pub proof fn law_custom_calls_reach_the_model(
    state: Lowering,
    status: Option<Seq<char>>,
    call_id: Seq<char>,
    name: Seq<char>,
    input: Seq<char>,
)
    ensures
        lowered_item(
            state,
            ResponseItemView::CustomToolCall { status, call_id, name, input },
        ) matches Ok(after) && makes_call(state, after, call_id, name, last_arguments(after))
            && last_arguments(after).get_str("input"@) == Some(input),
{
    let arguments = JsonView::Object(map!["input"@ => JsonView::Text(input)]);
    lemma_makes_call(state, call_id, name, arguments);
}

/// A search for tools reaches the model as it was asked for, if the client runs it; else it is
/// refused.
pub proof fn law_tool_searches_reach_the_model(
    state: Lowering,
    call_id: Option<Seq<char>>,
    status: Option<Seq<char>>,
    execution: Seq<char>,
    arguments: JsonView,
)
    ensures
        ({
            let after = lowered_item(
                state,
                ResponseItemView::ToolSearchCall { call_id, status, execution, arguments },
            );
            &&& after is Ok <==> execution == "client"@
            &&& after matches Ok(after) ==> call_id matches Some(call_id) ==> makes_call(
                state,
                after,
                call_id,
                "tool_search"@,
                arguments,
            )
        }),
{
    if call_id is Some {
        lemma_makes_call(state, call_id->0, "tool_search"@, arguments);
    }
}

/// A shell call reaches the model with its command and everything else that it asks for.
pub proof fn law_shell_calls_reach_the_model(
    state: Lowering,
    id: Option<Seq<char>>,
    call_id: Seq<char>,
    status: Seq<char>,
    action: crate::models::responses::LocalShellExecActionView,
)
    ensures
        ({
            let after = lowered_item(
                state,
                ResponseItemView::LocalShellCall {
                    id,
                    call_id: Some(call_id),
                    status,
                    action: LocalShellActionView::Exec(action),
                },
            );
            &&& after matches Ok(after)
            &&& makes_call(state, after, call_id, "local_shell"@, last_arguments(after))
            &&& last_arguments(after).get("command"@) matches Some(JsonView::Array(items))
            &&& items.len() == action.command.len()
            &&& forall|k: int|
                0 <= k < items.len() ==> #[trigger] items[k] == JsonView::Text(action.command[k])
            &&& last_arguments(after).get_str("working_directory"@) == action.working_directory
            &&& last_arguments(after).get_str("user"@) == action.user
            &&& action.timeout_ms matches Some(timeout) ==> (last_arguments(after).get(
                "timeout_ms"@,
            ) matches Some(value) && value.as_u64() == Some(timeout as int))
            &&& action.env matches Some(env) ==> (last_arguments(after).get("env"@) matches Some(
                JsonView::Object(told),
            ) && told.dom() == env.dom() && forall|key: Seq<char>| #[trigger]
                env.dom().contains(key) ==> told[key] == JsonView::Text(env[key]))
        }),
{
    let arguments = action.json();
    reveal_strlit("command");
    reveal_strlit("timeout_ms");
    reveal_strlit("working_directory");
    reveal_strlit("env");
    reveal_strlit("user");
    assert("command"@.len() == 7);
    assert("timeout_ms"@.len() == 10);
    assert("working_directory"@.len() == 17);
    assert("env"@.len() == 3);
    assert("user"@.len() == 4);
    lemma_makes_call(state, call_id, "local_shell"@, arguments);
    if let Some(env) = action.env {
        let told = arguments.get("env"@)->0->Object_0;
        assert(told.dom() =~= env.dom());
    }
}

/// A search on the web is replayed to the model as a call with its query, and a result under the
/// same id that names the query again.
pub proof fn law_searches_are_replayed(
    state: Lowering,
    id: Seq<char>,
    status: Option<Seq<char>>,
    query: Seq<char>,
    queries: Option<Seq<Seq<char>>>,
)
    ensures
        ({
            let after = lowered_item(
                state,
                ResponseItemView::WebSearchCall {
                    id: Some(id),
                    status,
                    action: Some(WebSearchActionView::Search { query: Some(query), queries }),
                },
            );
            &&& after matches Ok(after)
            &&& exists|called: Lowering, arguments: JsonView, text: Seq<char>|
                {
                    &&& arguments.get_str("query"@) == Some(query)
                    &&& #[trigger] makes_call(state, called, id, "web_search"@, arguments)
                    &&& #[trigger] answers_call(called, after, Some(id), text)
                    &&& text.len() >= query.len()
                    &&& text.skip(text.len() - query.len()) == query
                }
        }),
{
    let item = ResponseItemView::WebSearchCall {
        id: Some(id),
        status,
        action: Some(WebSearchActionView::Search { query: Some(query), queries }),
    };
    let arguments = JsonView::Object(map!["query"@ => JsonView::Text(query)]);
    let called = super::after_call(state, id, "web_search"@, arguments);
    let text = super::content::search_placeholder(
        Some(WebSearchActionView::Search { query: Some(query), queries }),
    );
    let after = lowered_item(state, item)->Ok_0;
    lemma_makes_call(state, id, "web_search"@, arguments);
    assert(after.messages.drop_last() =~= called.messages);
    assert(answers_call(called, after, Some(id), text));
    assert(text.skip(text.len() - query.len()) =~= query);
}

// ---------------------------------------------------------------------------------------------
// Messages
// ---------------------------------------------------------------------------------------------

/// Whether a part of a chat message is the given text.
pub open spec fn is_text_part(part: JsonView, text: Seq<char>) -> bool {
    part.get_str("type"@) == Some("text"@) && part.get_str("text"@) == Some(text)
}

/// Whether a part of a chat message shows the image under the given address.
pub open spec fn is_image_part(part: JsonView, url: Seq<char>, detail: Option<Seq<char>>) -> bool {
    &&& part.get_str("type"@) == Some("image_url"@)
    &&& part.get("image_url"@) matches Some(image)
    &&& image.get_str("url"@) == Some(url)
    &&& image.get_str("detail"@) == detail
}

/// The role that a message has for the model: instructions are the system's.
pub open spec fn role_for_model(role: Seq<char>) -> Seq<char> {
    if role == "developer"@ {
        "system"@
    } else {
        role
    }
}

/// The text of a part that is one.
pub open spec fn text_in(item: ContentItemView) -> Option<Seq<char>> {
    match item {
        ContentItemView::InputText { text } => Some(text),
        ContentItemView::OutputText { text } => Some(text),
        _ => None,
    }
}

/// Whether a part of a chat message says what an item of a message says.
pub open spec fn says_the_same(item: ContentItemView, part: JsonView) -> bool {
    match item {
        ContentItemView::InputText { text } => is_text_part(part, text),
        ContentItemView::OutputText { text } => is_text_part(part, text),
        ContentItemView::InputImage { image_url, file_id, detail } => match image_url {
            Some(url) => is_image_part(part, url, detail),
            None => part.get_str("type"@) == Some("input_image"@) && part.get_str("file_id"@)
                == file_id && part.get_str("detail"@) == detail,
        },
        ContentItemView::InputFile { file_id, file_url, filename, file_data } => {
            &&& part.get_str("type"@) == Some("input_file"@)
            &&& part.get_str("file_id"@) == file_id
            &&& part.get_str("file_url"@) == file_url
            &&& part.get_str("filename"@) == filename
            &&& part.get_str("file_data"@) == file_data
        },
        ContentItemView::Other(value) => part == value,
    }
}

proof fn lemma_parts_say_the_same(item: ContentItemView)
    ensures
        says_the_same(item, super::content::chat_part(item)),
{
    reveal_strlit("type");
    reveal_strlit("text");
    reveal_strlit("image_url");
    reveal_strlit("url");
    reveal_strlit("detail");
    reveal_strlit("file_id");
    reveal_strlit("file_url");
    reveal_strlit("filename");
    reveal_strlit("file_data");
    assert("type"@[0] == 't' && "type"@[1] == 'y');
    assert("text"@[1] == 'e');
    assert("image_url"@[0] == 'i');
    assert("url"@.len() == 3);
    assert("detail"@.len() == 6);
    assert("file_id"@.len() == 7);
    assert("file_url"@[5] == 'u');
    assert("filename"@[4] == 'n');
    assert("file_url"@[4] == '_');
    assert("file_data"@.len() == 9);
    assert("file_url"@.len() == 8);
    assert("filename"@.len() == 8);
}

/// A message reaches the model in its role and with everything that it says, part for part: a lone
/// text as it is, several parts as a list.
pub proof fn law_messages_reach_the_model(
    state: Lowering,
    id: Option<Seq<char>>,
    role: Seq<char>,
    content: Seq<ContentItemView>,
    phase: Option<Seq<char>>,
)
    ensures
        ({
            let after = lowered_item(state, ResponseItemView::Message { id, role, content, phase });
            &&& after matches Ok(after)
            &&& after.messages.len() == state.messages.len() + 1
            &&& after.messages.drop_last() == state.messages
            &&& after.messages.last().role == role_for_model(role)
            &&& after.messages.last().tool_calls is None
            &&& after.messages.last().tool_call_id is None
            &&& content.len() == 0 ==> after.messages.last().content == Some(
                JsonView::Text(Seq::empty()),
            )
            &&& content.len() == 1 && text_in(content[0]) is Some ==> after.messages.last().content
                == Some(JsonView::Text(text_in(content[0])->0))
            &&& content.len() > 1 || (content.len() == 1 && text_in(content[0]) is None) ==> {
                &&& after.messages.last().content matches Some(JsonView::Array(parts))
                &&& parts.len() == content.len()
                &&& forall|k: int|
                    0 <= k < parts.len() ==> says_the_same(content[k], #[trigger] parts[k])
            }
        }),
{
    let after = lowered_item(state, ResponseItemView::Message { id, role, content, phase })->Ok_0;
    assert(after.messages.drop_last() =~= state.messages);
    assert forall|k: int| 0 <= k < content.len() implies says_the_same(
        content[k],
        super::content::chat_part(#[trigger] content[k]),
    ) by {
        lemma_parts_say_the_same(content[k]);
    }
    if content.len() > 1 {
        let parts = after.messages.last().content->0->Array_0;
        assert forall|k: int| 0 <= k < parts.len() implies says_the_same(
            content[k],
            #[trigger] parts[k],
        ) by {
            lemma_parts_say_the_same(content[k]);
        }
    }
}

/// Reasoning goes with what the assistant says next: word for word, and signed if it was signed.
pub proof fn law_reasoning_goes_with_what_follows(
    state: Lowering,
    id: Seq<char>,
    text: Seq<char>,
    signature: Option<Seq<char>>,
    content: Seq<ContentItemView>,
)
    requires
        state.pending is None,
        text.len() > 0,
        signature matches Some(signature) ==> signature.len() > 0,
    ensures
        ({
            let thought = lowered_item(
                state,
                ResponseItemView::Reasoning {
                    id,
                    summary: Seq::empty(),
                    content: Some(seq![ReasoningContentItemView::ReasoningText { text }]),
                    encrypted_content: signature,
                },
            );
            &&& thought matches Ok(thought)
            &&& thought.messages == state.messages
            &&& lowered_item(
                thought,
                ResponseItemView::Message { id: None, role: "assistant"@, content, phase: None },
            ) matches Ok(after)
            &&& after.pending is None
            &&& after.messages.last().reasoning_content == Some(text)
            &&& signature is None ==> after.messages.last().thinking is None
            &&& signature is Some ==> (after.messages.last().thinking matches Some(thinking)
                && thinking.content == text && thinking.signature == signature)
        }),
{
    reveal_strlit("assistant");
    reveal_strlit("developer");
    assert("assistant"@[0] != "developer"@[0]);
    lemma_lone_reasoning(text);
}

proof fn lemma_lone_reasoning(text: Seq<char>)
    requires
        text.len() > 0,
    ensures
        super::content::reasoning_text(
            Seq::empty(),
            Some(seq![ReasoningContentItemView::ReasoningText { text }]),
        ) == text,
{
    reveal(Seq::filter);
    let none = Seq::<ReasoningSummaryItemView>::empty().map_values(
        |item: ReasoningSummaryItemView| item->text,
    );
    let items = seq![ReasoningContentItemView::ReasoningText { text }];
    let texts = items.map_values(
        |item: ReasoningContentItemView| super::content::reasoning_part(item),
    );
    assert(texts =~= seq![text]);
    assert(texts.drop_last() =~= Seq::empty());
    assert(filled(none) =~= Seq::empty());
    assert(filled(Seq::<Seq<char>>::empty()) =~= Seq::empty());
    assert(filled(texts) =~= seq![text]);
    assert(filled(none) + filled(texts) =~= seq![text]);
}

/// Reasoning that waits for the assistant does not go with what others say, and waits on.
pub proof fn law_reasoning_waits_for_the_assistant(
    state: Lowering,
    id: Option<Seq<char>>,
    role: Seq<char>,
    content: Seq<ContentItemView>,
    phase: Option<Seq<char>>,
)
    requires
        role_for_model(role) != "assistant"@,
    ensures
        lowered_item(state, ResponseItemView::Message { id, role, content, phase }) matches Ok(after)
            && after.pending == state.pending && after.messages.last().reasoning_content is None
            && after.messages.last().thinking is None,
{
}

/// Two pieces of reasoning in a row go together, the first in front, with an empty line between.
pub proof fn law_reasoning_adds_up(
    state: Lowering,
    first: Seq<char>,
    second: Seq<char>,
    ids: (Seq<char>, Seq<char>),
)
    requires
        state.pending is None,
        first.len() > 0,
        second.len() > 0,
    ensures
        ({
            let item = |id: Seq<char>, text: Seq<char>|
                ResponseItemView::Reasoning {
                    id,
                    summary: Seq::empty(),
                    content: Some(seq![ReasoningContentItemView::ReasoningText { text }]),
                    encrypted_content: None,
                };
            &&& lowered_item(state, item(ids.0, first)) matches Ok(once)
            &&& lowered_item(once, item(ids.1, second)) matches Ok(twice)
            &&& twice.pending matches Some(pending)
            &&& pending.text == first + "\n\n"@ + second
            &&& pending.signature is None
        }),
{
    lemma_lone_reasoning(first);
    lemma_lone_reasoning(second);
}

/// A conversation is lowered item after item: what comes first is lowered first, and nothing that is
/// lowered later starts from anything else.
pub proof fn law_items_are_lowered_in_order(
    state: Lowering,
    items: Seq<ResponseItemView>,
    more: Seq<ResponseItemView>,
)
    ensures
        lowered_items(state, items + more) == (match lowered_items(state, items) {
            Ok(between) => lowered_items(between, more),
            Err(error) => Err(error),
        }),
    decreases more.len(),
{
    if more.len() == 0 {
        assert(items + more =~= items);
    } else {
        law_items_are_lowered_in_order(state, items, more.drop_last());
        assert((items + more).drop_last() =~= items + more.drop_last());
        assert((items + more).last() == more.last());
    }
}

// ---------------------------------------------------------------------------------------------
// Requests
// ---------------------------------------------------------------------------------------------

/// What a request asks for beside its conversation reaches the backend: the penalties as they are,
/// the schema of the answer, and an effort that is `max` for the two highest levels and `high` for
/// all others.
pub proof fn law_settings_reach_the_backend(
    request: ResponsesRequestView,
    baseline: Seq<ChatMessageView>,
    default_effort: Seq<char>,
    image_agent_active: bool,
)
    requires
        lowered_request(request, baseline, default_effort, image_agent_active) is Ok,
    ensures
        ({
            let turn = lowered_request(
                request,
                baseline,
                default_effort,
                image_agent_active,
            )->Ok_0;
            let effort = match request.reasoning {
                Some(reasoning) => match reasoning.effort {
                    Some(effort) => effort,
                    None => default_effort,
                },
                None => default_effort,
            };
            &&& turn.frequency_penalty == request.frequency_penalty
            &&& turn.presence_penalty == request.presence_penalty
            &&& turn.reasoning_effort is None <==> trimmed(effort).len() == 0
            &&& turn.reasoning_effort matches Some(level) ==> (level == "max"@ <==> lowered(
                trimmed(effort),
            ) == "max"@ || lowered(trimmed(effort)) == "xhigh"@) && (level == "max"@ || level
                == "high"@)
            &&& turn.response_format is Some <==> (request.text matches Some(text) && text.format
                is Some)
            &&& request.text matches Some(text) ==> text.format matches Some(format) ==> {
                &&& turn.response_format matches Some(told)
                &&& told.get_str("type"@) == Some(format.kind)
                &&& told.get("json_schema"@) matches Some(schema)
                &&& schema.get_str("name"@) == Some(format.name)
                &&& schema.get("schema"@) == Some(format.schema)
                &&& schema.get("strict"@) == Some(JsonView::Bool(format.strict))
            }
        }),
{
    reveal_strlit("max");
    reveal_strlit("high");
    reveal_strlit("type");
    reveal_strlit("json_schema");
    reveal_strlit("name");
    reveal_strlit("schema");
    reveal_strlit("strict");
    assert("max"@.len() == 3);
    assert("high"@.len() == 4);
    assert("type"@.len() == 4);
    assert("json_schema"@.len() == 11);
    assert("name"@.len() == 4);
    assert("name"@[0] == 'n');
    assert("schema"@[1] == 'c');
    assert("strict"@[1] == 't');
}

/// The messages of a turn begin with those of the turns before; where there are none, with the
/// instructions.
pub proof fn law_conversation_goes_on(
    request: ResponsesRequestView,
    baseline: Seq<ChatMessageView>,
    default_effort: Seq<char>,
    image_agent_active: bool,
)
    requires
        lowered_request(request, baseline, default_effort, image_agent_active) is Ok,
    ensures
        ({
            let turn = lowered_request(
                request,
                baseline,
                default_effort,
                image_agent_active,
            )->Ok_0;
            exists|start: Lowering, state: Lowering|
                {
                    &&& start.pending is None
                    &&& baseline.len() > 0 ==> start.messages == baseline
                    &&& baseline.len() == 0 && request.instructions.len() == 0
                        ==> start.messages.len() == 0
                    &&& baseline.len() == 0 && request.instructions.len() > 0 ==> {
                        &&& start.messages.len() == 1
                        &&& start.messages[0].role == "system"@
                        &&& start.messages[0].content == Some(JsonView::Text(request.instructions))
                    }
                    &&& #[trigger] lowered_items(start, request.input) == Ok::<
                        Lowering,
                        crate::error::AppErrorView,
                    >(state)
                    &&& turn.messages == #[trigger] conversation(state)
                }
        }),
{
    let start = Lowering {
        messages: super::starting_messages(request, baseline),
        pending: None,
    };
    let state = lowered_items(start, request.input)->Ok_0;
    assert(lowered_items(start, request.input) == Ok::<Lowering, crate::error::AppErrorView>(state));
    assert(baseline.len() == 0 ==> baseline =~= Seq::empty());
    assert(conversation(state) == conversation(state));
}

/// A conversation keeps every message behind the system messages at its beginning, and reasoning
/// that nothing followed is told at its end.
pub proof fn law_conversation_is_told_whole(state: Lowering)
    requires
        state.messages.len() > 0,
        state.messages[0].role != "system"@,
    ensures
        state.pending is None ==> conversation(state) == state.messages,
        state.pending matches Some(pending) ==> {
            &&& conversation(state).len() == state.messages.len() + 1
            &&& conversation(state).drop_last() == state.messages
            &&& conversation(state).last().role == "assistant"@
            &&& conversation(state).last().reasoning_content == Some(pending.text)
            &&& conversation(state).last().content is None
        },
{
    if state.pending is Some {
        assert(conversation(state).drop_last() =~= state.messages);
    }
}

/// The system messages at the beginning of a conversation become one that says all of them, in
/// their order, with an empty line between them.
pub proof fn law_two_instructions_are_told_together(
    first: Seq<char>,
    second: Seq<char>,
    rest: Seq<ChatMessageView>,
)
    requires
        first.len() > 0,
        second.len() > 0,
        rest.len() > 0 ==> rest[0].role != "system"@,
    ensures
        ({
            let system = |text: Seq<char>|
                super::plain_message("system"@, Some(JsonView::Text(text)));
            let told = hoisted(seq![system(first), system(second)] + rest);
            &&& told.len() == rest.len() + 1
            &&& told[0].role == "system"@
            &&& told[0].content == Some(JsonView::Text(first + "\n\n"@ + second))
            &&& told.skip(1) == rest
        }),
{
    let system = |text: Seq<char>| super::plain_message("system"@, Some(JsonView::Text(text)));
    let messages = seq![system(first), system(second)] + rest;
    assert(messages.drop_first() =~= seq![system(second)] + rest);
    assert(messages.drop_first().drop_first() =~= rest);
    assert(system_prefix(rest) == 0);
    assert(system_prefix(messages.drop_first()) == 1);
    assert(system_prefix(messages) == 2);
    assert(messages.take(2) =~= seq![system(first), system(second)]);
    assert(messages.take(2).drop_last() =~= seq![system(first)]);
    assert(seq![system(first)].drop_last() =~= Seq::empty());
    assert(message_texts(Seq::<ChatMessageView>::empty()) =~= Seq::empty());
    assert(message_texts(seq![system(first)]) =~= seq![first]);
    let texts = message_texts(messages.take(2));
    assert(texts =~= seq![first, second]);
    assert(texts.drop_last() =~= seq![first]);
    assert(joined(texts.drop_last(), "\n\n"@) == first);
    assert(messages.skip(2) =~= rest);
    assert(hoisted(messages).skip(1) =~= rest);
}

// ---------------------------------------------------------------------------------------------
// Tools
// ---------------------------------------------------------------------------------------------

/// Whether a chat tool offers a function as it was declared.
pub open spec fn offers(
    tool: ChatToolView,
    name: Seq<char>,
    description: Seq<char>,
    parameters: JsonView,
    strict: bool,
) -> bool {
    &&& tool.kind == "function"@
    &&& tool.function.name == name
    &&& tool.function.description == description
    &&& tool.function.parameters == Some(parameters)
    &&& tool.function.strict == strict
}

proof fn lemma_tools_of_spec(specs: Seq<ToolSpecView>, at: int, tool: ChatToolView)
    requires
        0 <= at < specs.len(),
        chat_tools(specs[at]).contains(tool),
    ensures
        all_chat_tools(specs).contains(tool),
    decreases specs.len(),
{
    let before = all_chat_tools(specs.drop_last());
    let own = chat_tools(specs.last());
    if at == specs.len() - 1 {
        let k = choose|k: int| 0 <= k < own.len() && own[k] == tool;
        assert(all_chat_tools(specs)[before.len() + k] == tool);
    } else {
        assert(specs.drop_last()[at] == specs[at]);
        lemma_tools_of_spec(specs.drop_last(), at, tool);
        let k = choose|k: int| 0 <= k < before.len() && before[k] == tool;
        assert(all_chat_tools(specs)[k] == tool);
    }
}

proof fn lemma_sorted_tools_contain(specs: Seq<ToolSpecView>, tool: ChatToolView)
    requires
        lowered_tools(specs) is Ok,
        all_chat_tools(specs).contains(tool),
    ensures
        lowered_tools(specs)->Ok_0.contains(tool),
{
    let tools = all_chat_tools(specs);
    let sorted = lowered_tools(specs)->Ok_0;
    law_sorting_keeps_values::<crate::models::chat::ChatTool>(tools);
    broadcast use vstd::seq_lib::group_to_multiset_ensures;

    assert(tools.to_multiset().count(tool) > 0);
    assert(sorted.to_multiset().count(tool) > 0);
}

/// A function that a request declares is offered to the model as it was declared.
pub proof fn law_functions_are_offered_as_declared(
    specs: Seq<ToolSpecView>,
    at: int,
    name: Seq<char>,
    description: Seq<char>,
    strict: bool,
    parameters: JsonView,
)
    requires
        lowered_tools(specs) is Ok,
        0 <= at < specs.len(),
        specs[at] == (ToolSpecView::Function { name, description, strict, parameters }),
    ensures
        exists|tool: ChatToolView| #[trigger]
            lowered_tools(specs)->Ok_0.contains(tool) && offers(
                tool,
                name,
                description,
                parameters,
                strict,
            ),
{
    let tool = chat_tools(specs[at])[0];
    assert(chat_tools(specs[at]).contains(tool));
    lemma_tools_of_spec(specs, at, tool);
    lemma_sorted_tools_contain(specs, tool);
    assert(offers(tool, name, description, parameters, strict));
}

/// A function of a namespace is offered to the model as it was declared.
pub proof fn law_namespaces_are_offered_as_declared(
    specs: Seq<ToolSpecView>,
    at: int,
    inner: int,
)
    requires
        lowered_tools(specs) is Ok,
        0 <= at < specs.len(),
        specs[at] is Namespace,
        0 <= inner < specs[at]->Namespace_tools.len(),
    ensures
        ({
            let NamespaceToolSpecView::Function { name, description, strict, parameters } =
                specs[at]->Namespace_tools[inner];
            exists|tool: ChatToolView| #[trigger]
                lowered_tools(specs)->Ok_0.contains(tool) && offers(
                    tool,
                    name,
                    description,
                    parameters,
                    strict,
                )
        }),
{
    let NamespaceToolSpecView::Function { name, description, strict, parameters } =
        specs[at]->Namespace_tools[inner];
    let tool = chat_tools(specs[at])[inner];
    assert(chat_tools(specs[at]).contains(tool));
    lemma_tools_of_spec(specs, at, tool);
    lemma_sorted_tools_contain(specs, tool);
    assert(offers(tool, name, description, parameters, strict));
}

/// The tools that the gateway describes itself are offered under their names, and take what their
/// calls are read for: a query, the input of a custom tool, a command.
pub proof fn law_own_tools_are_offered(spec_view: ToolSpecView)
    ensures
        spec_view is WebSearch ==> {
            &&& chat_tools(spec_view).len() == 1
            &&& chat_tools(spec_view)[0].function.name == "web_search"@
            &&& takes_text(chat_tools(spec_view)[0], "query"@)
        },
        spec_view matches ToolSpecView::Custom { name, description, format } ==> {
            &&& chat_tools(spec_view).len() == 1
            &&& chat_tools(spec_view)[0].function.name == name
            &&& description.is_prefix_of(chat_tools(spec_view)[0].function.description)
            &&& takes_text(chat_tools(spec_view)[0], "input"@)
        },
        spec_view matches ToolSpecView::ToolSearch { execution, description, parameters } ==> {
            &&& chat_tools(spec_view).len() == 1
            &&& offers(
                chat_tools(spec_view)[0],
                "tool_search"@,
                description,
                parameters,
                false,
            )
        },
        spec_view is LocalShell ==> {
            &&& chat_tools(spec_view).len() == 1
            &&& chat_tools(spec_view)[0].function.name == "local_shell"@
            &&& chat_tools(spec_view)[0].function.parameters matches Some(schema)
            &&& schema.get("required"@) == Some(
                JsonView::Array(seq![JsonView::Text("command"@)]),
            )
            &&& schema.get("properties"@) matches Some(properties)
            &&& properties.get("command"@) is Some
            &&& properties.get("timeout_ms"@) is Some
            &&& properties.get("working_directory"@) is Some
            &&& properties.get("env"@) is Some
            &&& properties.get("user"@) is Some
        },
        spec_view is ImageGeneration ==> chat_tools(spec_view).len() == 0,
{
    reveal_strlit("type");
    reveal_strlit("properties");
    reveal_strlit("required");
    reveal_strlit("command");
    reveal_strlit("timeout_ms");
    reveal_strlit("working_directory");
    reveal_strlit("env");
    reveal_strlit("user");
    assert("type"@.len() == 4);
    assert("properties"@.len() == 10);
    assert("required"@.len() == 8);
    assert("command"@.len() == 7);
    assert("timeout_ms"@.len() == 10);
    assert("working_directory"@.len() == 17);
    assert("env"@.len() == 3);
    assert("user"@.len() == 4);
}

/// Whether a tool takes an object with the given text in it, and needs it.
pub open spec fn takes_text(tool: ChatToolView, property: Seq<char>) -> bool {
    &&& tool.kind == "function"@
    &&& tool.function.parameters matches Some(schema)
    &&& schema.get_str("type"@) == Some("object"@)
    &&& schema.get("required"@) == Some(JsonView::Array(seq![JsonView::Text(property)]))
    &&& schema.get("properties"@) matches Some(properties)
    &&& properties.get(property) matches Some(kind)
    &&& kind.get_str("type"@) == Some("string"@)
}

proof fn lemma_kind_of(
    kinds: Seq<(Seq<char>, ToolKindView)>,
    at: int,
)
    requires
        0 <= at < kinds.len(),
        kind_names(kinds).no_duplicates(),
    ensures
        kinds_by_name(kinds).dom().contains(lowered(kinds[at].0)),
        kinds_by_name(kinds)[lowered(kinds[at].0)] == kinds[at].1,
    decreases kinds.len(),
{
    let before = kinds.drop_last();
    if at < kinds.len() - 1 {
        assert(kind_names(before) =~= kind_names(kinds).drop_last());
        assert forall|i: int, j: int|
            0 <= i < before.len() && 0 <= j < before.len() && i != j implies kind_names(before)[i]
            != kind_names(before)[j] by {
            assert(kind_names(kinds)[i] != kind_names(kinds)[j]);
        }
        lemma_kind_of(before, at);
        assert(before[at] == kinds[at]);
        assert(kind_names(kinds)[at] != kind_names(kinds)[kinds.len() - 1]);
    }
}

proof fn lemma_kinds_of_spec(
    specs: Seq<ToolSpecView>,
    image_agent_active: bool,
    at: int,
    entry: (Seq<char>, ToolKindView),
)
    requires
        0 <= at < specs.len(),
        tool_kinds(specs[at], image_agent_active).contains(entry),
    ensures
        all_tool_kinds(specs, image_agent_active).contains(entry),
    decreases specs.len(),
{
    let before = all_tool_kinds(specs.drop_last(), image_agent_active);
    let own = tool_kinds(specs.last(), image_agent_active);
    let all = all_tool_kinds(specs, image_agent_active);
    if at == specs.len() - 1 {
        let k = choose|k: int| 0 <= k < own.len() && own[k] == entry;
        assert(all[before.len() + k] == entry);
    } else {
        assert(specs.drop_last()[at] == specs[at]);
        lemma_kinds_of_spec(specs.drop_last(), image_agent_active, at, entry);
        let k = choose|k: int| 0 <= k < before.len() && before[k] == entry;
        assert(all[k] == entry);
    }
}

proof fn lemma_registered(
    specs: Seq<ToolSpecView>,
    image_agent_active: bool,
    at: int,
    name: Seq<char>,
    kind: ToolKindView,
)
    requires
        tool_registry(specs, image_agent_active) is Ok,
        0 <= at < specs.len(),
        tool_kinds(specs[at], image_agent_active).contains((name, kind)),
    ensures
        tool_registry(specs, image_agent_active)->Ok_0.dom().contains(lowered(name)),
        tool_registry(specs, image_agent_active)->Ok_0[lowered(name)] == kind,
{
    let kinds = all_tool_kinds(specs, image_agent_active);
    lemma_kinds_of_spec(specs, image_agent_active, at, (name, kind));
    super::tools::lemma_no_repeat(kind_names(kinds));
    let k = choose|k: int| 0 <= k < kinds.len() && kinds[k] == (name, kind);
    lemma_kind_of(kinds, k);
}

/// What a model calls is looked up, whatever the case of its letters, and found to be what the
/// request declared under that name.
pub proof fn law_called_names_are_found(
    specs: Seq<ToolSpecView>,
    image_agent_active: bool,
    at: int,
)
    requires
        tool_registry(specs, image_agent_active) is Ok,
        0 <= at < specs.len(),
    ensures
        ({
            let registry = tool_registry(specs, image_agent_active)->Ok_0;
            match specs[at] {
                ToolSpecView::Function { name, description, strict, parameters } => {
                    registry.dom().contains(lowered(name)) && (!image_agent_active
                        ==> registry[lowered(name)] == (ToolKindView::Function {
                        public_name: name,
                        namespace: None,
                    }))
                },
                ToolSpecView::Custom { name, description, format } => registry.dom().contains(
                    lowered(name),
                ) && registry[lowered(name)] == (ToolKindView::Custom { public_name: name }),
                ToolSpecView::Namespace { name, description, tools } => forall|k: int|
                    0 <= k < tools.len() ==> registry.dom().contains(
                        lowered((#[trigger] tools[k])->name),
                    ) && registry[lowered(tools[k]->name)] == (ToolKindView::Function {
                        public_name: tools[k]->name,
                        namespace: Some(name),
                    }),
                ToolSpecView::ToolSearch { execution, description, parameters } => registry.dom().contains(
                    lowered("tool_search"@),
                ) && registry[lowered("tool_search"@)] is ToolSearch,
                ToolSpecView::LocalShell => registry.dom().contains(lowered("local_shell"@))
                    && registry[lowered("local_shell"@)] is LocalShell,
                ToolSpecView::WebSearch {
                    external_web_access,
                    filters,
                    user_location,
                    search_context_size,
                    search_content_types,
                } => registry.dom().contains(lowered("web_search"@)) && registry[lowered(
                    "web_search"@,
                )] is WebSearch,
                ToolSpecView::ImageGeneration { output_format } => true,
            }
        }),
{
    let kinds = tool_kinds(specs[at], image_agent_active);
    assert forall|k: int| 0 <= k < kinds.len() implies ({
        let registry = tool_registry(specs, image_agent_active)->Ok_0;
        registry.dom().contains(lowered((#[trigger] kinds[k]).0)) && registry[lowered(kinds[k].0)]
            == kinds[k].1
    }) by {
        assert(kinds.contains(kinds[k]));
        lemma_registered(specs, image_agent_active, at, kinds[k].0, kinds[k].1);
    }
    if let ToolSpecView::Namespace { name, description, tools } = specs[at] {
        assert forall|k: int| 0 <= k < tools.len() implies ({
            let registry = tool_registry(specs, image_agent_active)->Ok_0;
            registry.dom().contains(lowered((#[trigger] tools[k])->name)) && registry[lowered(
                tools[k]->name,
            )] == (ToolKindView::Function { public_name: tools[k]->name, namespace: Some(name) })
        }) by {
            assert(kinds[k].0 == tools[k]->name);
        }
    } else if !(specs[at] is ImageGeneration) {
        assert(kinds.len() == 1);
        assert(kinds[0] == kinds[0]);
    }
}

/// A request that chains on an earlier response, or chooses a tool that it does not offer, is
/// refused before anything is sent.
pub proof fn law_impossible_requests_are_refused(
    request: ResponsesRequestView,
    baseline: Seq<ChatMessageView>,
    default_effort: Seq<char>,
    image_agent_active: bool,
)
    requires
        lowered_request(request, baseline, default_effort, image_agent_active) is Ok,
    ensures
        request.previous_response_id is None,
        request.tool_choice is Text || request.tool_choice is Object,
        request.tool_choice matches JsonView::Text(choice) ==> (choice == "auto"@ || choice
            == "none"@ || choice == "required"@ && request.tools.len() > 0),
        request.tool_choice is Object ==> request.tools.len() > 0 && request.tool_choice.get_str(
            "type"@,
        ) == Some("function"@) && (request.tool_choice.get("function"@) matches Some(function)
            && function.get_str("name"@) matches Some(name) && name.len() > 0),
{
}

// ---------------------------------------------------------------------------------------------
// Calls in a row, replayed searches and reasoning
// ---------------------------------------------------------------------------------------------

/// A call joins the last message exactly if the assistant made that one and it calls tools already or
/// says nothing; else it stands in a message of its own.
pub proof fn law_calls_in_a_row_stand_together(
    state: Lowering,
    call_id: Seq<char>,
    name: Seq<char>,
    input: Seq<char>,
    status: Option<Seq<char>>,
)
    ensures
        ({
            let item = ResponseItemView::CustomToolCall { status, call_id, name, input };
            let last = state.messages.last();
            let joins = state.messages.len() > 0 && last.role == "assistant"@ && (last.tool_calls
                is Some || last.content is None);
            &&& lowered_item(state, item) matches Ok(after)
            &&& joins ==> after.messages.len() == state.messages.len()
                && after.messages.last().tool_calls->0.len() == (match last.tool_calls {
                Some(calls) => calls.len(),
                None => 0,
            }) + 1
            &&& !joins ==> after.messages.len() == state.messages.len() + 1
                && after.messages.last().tool_calls->0.len() == 1
        }),
{
}

/// A call of the shell without a call id goes by the id of its item, and one without either is
/// refused.
pub proof fn law_shell_calls_go_by_an_id(
    state: Lowering,
    id: Option<Seq<char>>,
    status: Seq<char>,
    action: crate::models::responses::LocalShellExecActionView,
)
    ensures
        ({
            let after = lowered_item(
                state,
                ResponseItemView::LocalShellCall {
                    id,
                    call_id: None,
                    status,
                    action: LocalShellActionView::Exec(action),
                },
            );
            &&& id is None ==> after is Err
            &&& id matches Some(id) ==> {
                &&& after matches Ok(after)
                &&& makes_call(state, after, id, "local_shell"@, last_arguments(after))
                &&& last_arguments(after) == action.json()
            }
        }),
{
    if let Some(id) = id {
        lemma_makes_call(state, id, "local_shell"@, action.json());
    }
}

/// Whether `after` is `before`, a call of the search tool with the given arguments, and a result
/// under the same id.
pub open spec fn replays_search(
    before: Lowering,
    after: Lowering,
    id: Seq<char>,
    arguments: JsonView,
    text: Seq<char>,
) -> bool {
    exists|called: Lowering|
        {
            &&& #[trigger] makes_call(before, called, id, "web_search"@, arguments)
            &&& answers_call(called, after, Some(id), text)
        }
}

proof fn lemma_replayed(
    state: Lowering,
    id: Option<Seq<char>>,
    status: Option<Seq<char>>,
    action: Option<WebSearchActionView>,
)
    ensures
        ({
            let call_id = match id {
                Some(id) => id,
                None => "web_search_missing_replay_"@ + decimal(state.messages.len()),
            };
            &&& lowered_item(
                state,
                ResponseItemView::WebSearchCall { id, status, action },
            ) matches Ok(after)
            &&& replays_search(
                state,
                after,
                call_id,
                super::content::search_arguments(action),
                super::content::search_placeholder(action),
            )
        }),
{
    let call_id = match id {
        Some(id) => id,
        None => "web_search_missing_replay_"@ + decimal(state.messages.len()),
    };
    let arguments = super::content::search_arguments(action);
    let called = super::after_call(state, call_id, "web_search"@, arguments);
    let after = lowered_item(
        state,
        ResponseItemView::WebSearchCall { id, status, action },
    )->Ok_0;
    lemma_makes_call(state, call_id, "web_search"@, arguments);
    assert(after.messages.drop_last() =~= called.messages);
    assert(answers_call(
        called,
        after,
        Some(call_id),
        super::content::search_placeholder(action),
    ));
}

/// A search with several queries is replayed with the first, a page that was opened with its address,
/// and a search in a page with the address and the pattern; what stands for the result ends with what
/// was looked for.
pub proof fn law_other_searches_are_replayed(
    state: Lowering,
    id: Seq<char>,
    status: Option<Seq<char>>,
    queries: Seq<Seq<char>>,
    url: Seq<char>,
    pattern: Seq<char>,
)
    requires
        queries.len() > 0,
    ensures
        ({
            let several = lowered_item(
                state,
                ResponseItemView::WebSearchCall {
                    id: Some(id),
                    status,
                    action: Some(
                        WebSearchActionView::Search { query: None, queries: Some(queries) },
                    ),
                },
            );
            &&& several matches Ok(after)
            &&& exists|arguments: JsonView, text: Seq<char>|
                {
                    &&& #[trigger] replays_search(state, after, id, arguments, text)
                    &&& arguments.get_str("query"@) == Some(queries[0])
                    &&& queries[0].is_suffix_of(text)
                }
        }),
        ({
            let opened = lowered_item(
                state,
                ResponseItemView::WebSearchCall {
                    id: Some(id),
                    status,
                    action: Some(WebSearchActionView::OpenPage { url: Some(url) }),
                },
            );
            &&& opened matches Ok(after)
            &&& exists|arguments: JsonView, text: Seq<char>|
                {
                    &&& #[trigger] replays_search(state, after, id, arguments, text)
                    &&& arguments.get_str("url"@) == Some(url)
                    &&& url.is_suffix_of(text)
                }
        }),
        ({
            let found = lowered_item(
                state,
                ResponseItemView::WebSearchCall {
                    id: Some(id),
                    status,
                    action: Some(
                        WebSearchActionView::FindInPage { url: Some(url), pattern: Some(pattern) },
                    ),
                },
            );
            &&& found matches Ok(after)
            &&& exists|arguments: JsonView, text: Seq<char>, at: int|
                {
                    &&& #[trigger] replays_search(state, after, id, arguments, text)
                    &&& arguments.get_str("url"@) == Some(url)
                    &&& arguments.get_str("pattern"@) == Some(pattern)
                    &&& pattern.is_suffix_of(text)
                    &&& 0 <= at
                    &&& at + url.len() <= text.len()
                    &&& #[trigger] text.subrange(at, at + url.len()) == url
                }
        }),
{
    reveal_strlit("url");
    reveal_strlit("pattern");
    assert("url"@.len() == 3);
    assert("pattern"@.len() == 7);
    let several = Some(WebSearchActionView::Search { query: None, queries: Some(queries) });
    lemma_replayed(state, Some(id), status, several);
    let text = super::content::search_placeholder(several);
    assert(text.subrange(text.len() - queries[0].len(), text.len() as int) =~= queries[0]);
    let opened = Some(WebSearchActionView::OpenPage { url: Some(url) });
    lemma_replayed(state, Some(id), status, opened);
    let text = super::content::search_placeholder(opened);
    assert(text.subrange(text.len() - url.len(), text.len() as int) =~= url);
    let found = Some(
        WebSearchActionView::FindInPage { url: Some(url), pattern: Some(pattern) },
    );
    lemma_replayed(state, Some(id), status, found);
    let text = super::content::search_placeholder(found);
    assert(text.subrange(text.len() - pattern.len(), text.len() as int) =~= pattern);
    let head = super::content::lost_result("web_search find_in_page"@) + " URL: "@;
    let at = head.len() as int;
    assert(text.subrange(at, at + url.len()) =~= url);
}

/// Searches without an id that stand at different places of a conversation do not share one.
pub proof fn law_lost_searches_have_ids_of_their_own(
    one: Lowering,
    other: Lowering,
    status: Option<Seq<char>>,
    action: Option<WebSearchActionView>,
)
    requires
        one.messages.len() != other.messages.len(),
    ensures
        ({
            let item = ResponseItemView::WebSearchCall { id: None, status, action };
            &&& lowered_item(one, item) matches Ok(first)
            &&& lowered_item(other, item) matches Ok(second)
            &&& first.messages.last().tool_call_id is Some
            &&& second.messages.last().tool_call_id is Some
            &&& first.messages.last().tool_call_id != second.messages.last().tool_call_id
        }),
{
    lemma_replayed(one, None, status, action);
    lemma_replayed(other, None, status, action);
    let prefix = "web_search_missing_replay_"@;
    let first = decimal(one.messages.len());
    let second = decimal(other.messages.len());
    law_numbers_are_read_as_written(one.messages.len(), one.messages.len());
    law_numbers_are_read_as_written(other.messages.len(), other.messages.len());
    law_numbers_are_read_as_written(one.messages.len(), other.messages.len());
    law_numbers_are_read_as_written(other.messages.len(), one.messages.len());
    assert((prefix + first).skip(prefix.len() as int) =~= first);
    assert((prefix + second).skip(prefix.len() as int) =~= second);
}

/// The reasoning that waits for the assistant is all that an item says of it: the summary first, then
/// the text, one to a line.
pub proof fn law_reasoning_is_read_whole(
    state: Lowering,
    id: Seq<char>,
    summary: Seq<char>,
    part: ReasoningContentItemView,
    text: Seq<char>,
    signature: Option<Seq<char>>,
)
    requires
        state.pending is None,
        summary.len() > 0,
        text.len() > 0,
        part == (ReasoningContentItemView::ReasoningText { text }) || part
            == (ReasoningContentItemView::Text { text }),
    ensures
        ({
            let item = ResponseItemView::Reasoning {
                id,
                summary: seq![ReasoningSummaryItemView::SummaryText { text: summary }],
                content: Some(seq![part]),
                encrypted_content: signature,
            };
            &&& lowered_item(state, item) matches Ok(after)
            &&& after.messages == state.messages
            &&& after.pending matches Some(pending)
            &&& pending.text == summary + "\n"@ + text
            &&& signature matches Some(signed) ==> signed.len() > 0 ==> pending.signature
                == signature
        }),
{
    reveal(Seq::filter);
    reveal_with_fuel(Seq::filter, 3);
    reveal_with_fuel(joined, 3);
    let item = ResponseItemView::Reasoning {
        id,
        summary: seq![ReasoningSummaryItemView::SummaryText { text: summary }],
        content: Some(seq![part]),
        encrypted_content: signature,
    };
    let summaries = seq![ReasoningSummaryItemView::SummaryText { text: summary }].map_values(
        |item: ReasoningSummaryItemView| item->text,
    );
    let contents = seq![part].map_values(
        |item: ReasoningContentItemView| super::content::reasoning_part(item),
    );
    assert(summaries =~= seq![summary]);
    assert(contents =~= seq![text]);
    assert(seq![summary].drop_last() =~= Seq::empty());
    assert(seq![text].drop_last() =~= Seq::empty());
    assert(filled(seq![summary]) =~= seq![summary]);
    assert(filled(seq![text]) =~= seq![text]);
    let both = seq![summary] + seq![text];
    assert(both =~= seq![summary, text]);
    assert(both.drop_last() =~= seq![summary]);
    assert(joined(both, "\n"@) =~= summary + "\n"@ + text);
    assert(super::content::reasoning_text(
        seq![ReasoningSummaryItemView::SummaryText { text: summary }],
        Some(seq![part]),
    ) == joined(both, "\n"@));
}

} // verus!
