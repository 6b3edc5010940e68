//! Optional compaction of a conversation that grows too long.
//!
//! When it is switched on and a conversation exceeds its budget, the conversation is sent to a
//! compactor, and what comes back takes its place. Whatever goes wrong, the conversation goes on
//! unchanged.
use std::collections::hash_map::DefaultHasher;
use std::hash::{Hash, Hasher};
use vstd::arithmetic::power::pow;
use vstd::prelude::*;
use vstd::std_specs::hash::DefaultHasherAdditionalSpecFns;

use crate::adapters::chat_completions::stream::{
    make_tool_calls_json, tool_calls_json, with_value, insert_optional_value,
};
use crate::adapters::responses_to_chat::content::{
    insert_optional_string, plain_text, stringify_tool_output, with_optional,
};
use crate::digest::hex_digit;
use crate::duplicate::Duplicate;
use crate::json::{
    json_rendered, json_text, lemma_array_model, lemma_object_model, render_json, set_entry, Json,
    JsonMap, JsonNumber, JsonNumberView, JsonView,
};
use crate::models::chat::{ChatMessage, ChatMessageView, ChatThinkingView};
use crate::text::{byte_len, same_text};

verus! {

/// When and how conversations are compacted.
#[derive(Debug, PartialEq)]
pub struct CompactionConfig {
    pub enabled: bool,
    pub mode: String,
    pub endpoint: Option<String>,
    pub max_input_tokens: usize,
    pub keep_recent_turns: usize,
    pub timeout_ms: u64,
}

/// The model of [`CompactionConfig`].
pub struct CompactionConfigView {
    pub enabled: bool,
    pub mode: Seq<char>,
    pub endpoint: Option<Seq<char>>,
    pub max_input_tokens: usize,
    pub keep_recent_turns: usize,
    pub timeout_ms: u64,
}

impl DeepView for CompactionConfig {
    type V = CompactionConfigView;

    open spec fn deep_view(&self) -> CompactionConfigView {
        CompactionConfigView {
            enabled: self.enabled,
            mode: self.mode@,
            endpoint: self.endpoint.deep_view(),
            max_input_tokens: self.max_input_tokens,
            keep_recent_turns: self.keep_recent_turns,
            timeout_ms: self.timeout_ms,
        }
    }
}

impl Default for CompactionConfig {
    fn default() -> (result: Self)
        ensures
            result.deep_view() == (CompactionConfigView {
                enabled: false,
                mode: "external"@,
                endpoint: None,
                max_input_tokens: 96000,
                keep_recent_turns: 6,
                timeout_ms: 60000,
            }),
    {
        CompactionConfig {
            enabled: false,
            mode: "external".to_string(),
            endpoint: None,
            max_input_tokens: 96_000,
            keep_recent_turns: 6,
            timeout_ms: 60_000,
        }
    }
}

// ---------------------------------------------------------------------------------------------
// The size of a conversation
// ---------------------------------------------------------------------------------------------

/// The size of a message in bytes: its content, and the JSON text of its tool calls.
pub open spec fn content_size(message: ChatMessageView) -> usize {
    match message.content {
        Some(content) => byte_len(plain_text(content)),
        None => 0,
    }
}

/// The size of the tool calls of a message in bytes.
pub open spec fn calls_size(message: ChatMessageView) -> usize {
    match message.tool_calls {
        Some(calls) => byte_len(json_rendered(tool_calls_json(calls))),
        None => 0,
    }
}

/// The size of the first `count` messages in bytes, as far as a number can hold it.
pub open spec fn conversation_size(messages: Seq<ChatMessageView>, count: int) -> usize
    decreases count,
{
    if count <= 0 {
        0
    } else {
        conversation_size(messages, count - 1).saturating_add(
            content_size(messages[count - 1]),
        ).saturating_add(calls_size(messages[count - 1]))
    }
}

/// A rough count of the tokens of a conversation: one for every four bytes, and at least one.
pub open spec fn estimated_tokens(messages: Seq<ChatMessageView>) -> usize {
    let tokens = conversation_size(messages, messages.len() as int) / 4;
    if tokens > 1 {
        tokens
    } else {
        1
    }
}

/// A rough count of the tokens of a conversation.
pub fn estimate_tokens(messages: &Vec<ChatMessage>) -> (result: usize)
    ensures
        result == estimated_tokens(messages.deep_view()),
{
    let ghost models = messages.deep_view();
    let mut size: usize = 0;
    for index in 0..messages.len()
        invariant
            models == messages.deep_view(),
            size == conversation_size(models, index as int),
    {
        assert(models[index as int] == messages@[index as int].deep_view());
        if let Some(content) = &messages[index].content {
            let text = stringify_tool_output(content);
            size = size.saturating_add(text.as_str().len());
        }
        if let Some(calls) = &messages[index].tool_calls {
            let text = render_json(&make_tool_calls_json(calls));
            size = size.saturating_add(text.as_str().len());
        }
    }
    let tokens: usize = size / 4;
    if tokens > 1 {
        tokens
    } else {
        1
    }
}

// ---------------------------------------------------------------------------------------------
// The name of a session
// ---------------------------------------------------------------------------------------------

/// The texts by which a session is told apart: those of its system messages, up to and with that
/// of its first user message.
pub open spec fn session_texts(messages: Seq<ChatMessageView>) -> Seq<Seq<char>>
    decreases messages.len(),
{
    if messages.len() == 0 {
        Seq::empty()
    } else {
        let message = messages[0];
        let text = match message.content {
            Some(content) => seq![plain_text(content)],
            None => Seq::empty(),
        };
        if message.role == "user"@ {
            text
        } else if message.role == "system"@ {
            text + session_texts(messages.drop_first())
        } else {
            session_texts(messages.drop_first())
        }
    }
}

/// What the `Hash` of a `str` writes to a hasher.
pub uninterp spec fn text_writes(text: Seq<char>) -> Seq<Seq<u8>>;

/// `Hash::hash` of a `str`: it goes on writing to the hasher. What it writes depends on the text
/// alone.
#[verifier::external_body]
fn hash_text(text: &str, hasher: &mut DefaultHasher)
    ensures
        final(hasher)@ == old(hasher)@ + text_writes(text@),
{
    text.hash(hasher)
}

/// What texts write to a hasher, one after the other.
pub open spec fn texts_writes(texts: Seq<Seq<char>>) -> Seq<Seq<u8>>
    decreases texts.len(),
{
    if texts.len() == 0 {
        Seq::empty()
    } else {
        texts_writes(texts.drop_last()) + text_writes(texts.last())
    }
}

/// The hash of texts, one after the other.
pub open spec fn texts_hash(texts: Seq<Seq<char>>) -> u64 {
    DefaultHasher::spec_finish(texts_writes(texts))
}

fn hash_texts(texts: &Vec<String>) -> (result: u64)
    ensures
        result == texts_hash(texts.deep_view()),
{
    let ghost models = texts.deep_view();
    let mut hasher = DefaultHasher::new();
    for index in 0..texts.len()
        invariant
            models == texts.deep_view(),
            hasher@ == texts_writes(models.take(index as int)),
    {
        proof {
            assert(models.take(index + 1).drop_last() =~= models.take(index as int));
            assert(models.take(index + 1).last() == texts@[index as int]@);
        }
        hash_text(texts[index].as_str(), &mut hasher);
    }
    assert(models.take(models.len() as int) =~= models);
    hasher.finish()
}

/// `n` in hexadecimal, with exactly `width` digits.
pub open spec fn hex_fixed(n: nat, width: nat) -> Seq<char>
    decreases width,
{
    if width == 0 {
        Seq::empty()
    } else {
        hex_fixed(n / 16, (width - 1) as nat).push(hex_digit(n as int % 16))
    }
}

fn hex_text(n: u64, width: usize) -> (result: String)
    ensures
        result@ == hex_fixed(n as nat, width as nat),
    decreases width,
{
    if width == 0 {
        return String::new();
    }
    let digit: u8 = (n % 16) as u8;
    let last: char = if digit < 10 {
        (48u8 + digit) as char
    } else {
        (87u8 + digit) as char
    };
    let mut result = hex_text(n / 16, width - 1);
    result.push(last);
    result
}

/// The name of the session with the given hash.
pub open spec fn session_name(hash: u64) -> Seq<char> {
    "sess-"@ + hex_fixed(hash as nat, 16)
}

/// The name of the session that a conversation belongs to.
pub open spec fn session_id(messages: Seq<ChatMessageView>) -> Seq<char> {
    session_name(texts_hash(session_texts(messages)))
}

/// The name of the session with the given hash.
pub fn name_session(hash: u64) -> (result: String)
    ensures
        result@ == session_name(hash),
{
    let mut result = "sess-".to_string();
    result.push_str(hex_text(hash, 16).as_str());
    result
}

/// The name of the session that a conversation belongs to.
pub fn derive_session_id(messages: &Vec<ChatMessage>) -> (result: String)
    ensures
        result@ == session_id(messages.deep_view()),
{
    let ghost models = messages.deep_view();
    let mut texts: Vec<String> = Vec::new();
    let mut index: usize = 0;
    let mut done = false;
    assert(models.skip(0) =~= models);
    assert(texts.deep_view() + session_texts(models) =~= session_texts(models));
    while index < messages.len() && !done
        invariant
            models == messages.deep_view(),
            index <= messages@.len(),
            done ==> texts.deep_view() == session_texts(models),
            !done ==> session_texts(models) == texts.deep_view() + session_texts(
                models.skip(index as int),
            ),
        decreases messages.len() - index,
    {
        let message = &messages[index];
        let ghost before = texts.deep_view();
        let ghost rest = models.skip(index as int);
        proof {
            assert(rest[0] == message.deep_view());
            assert(rest.drop_first() =~= models.skip(index + 1));
        }
        let is_user = same_text(message.role.as_str(), "user");
        if is_user || same_text(message.role.as_str(), "system") {
            let ghost mut added: Seq<Seq<char>> = Seq::empty();
            if let Some(content) = &message.content {
                let text = stringify_tool_output(content);
                proof {
                    added = seq![text@];
                }
                texts.push(text);
            }
            assert(texts.deep_view() =~= before + added);
            if is_user {
                done = true;
            } else {
                assert(before + (added + session_texts(models.skip(index + 1)))
                    =~= texts.deep_view() + session_texts(models.skip(index + 1)));
            }
        }
        index = index + 1;
    }
    proof {
        if !done {
            assert(models.skip(index as int) =~= Seq::empty());
            assert(texts.deep_view() + Seq::<Seq<char>>::empty() =~= texts.deep_view());
        }
    }
    name_session(hash_texts(&texts))
}

/// What follows the first user message does not change the name of a session.
pub proof fn law_session_is_named_by_its_beginning(
    beginning: Seq<ChatMessageView>,
    one: Seq<ChatMessageView>,
    other: Seq<ChatMessageView>,
)
    requires
        exists|k: int| 0 <= k < beginning.len() && (#[trigger] beginning[k]).role == "user"@,
    ensures
        session_id(beginning + one) == session_id(beginning + other),
{
    lemma_session_texts(beginning, one);
    lemma_session_texts(beginning, other);
}

proof fn lemma_session_texts(beginning: Seq<ChatMessageView>, rest: Seq<ChatMessageView>)
    requires
        exists|k: int| 0 <= k < beginning.len() && (#[trigger] beginning[k]).role == "user"@,
    ensures
        session_texts(beginning + rest) == session_texts(beginning),
    decreases beginning.len(),
{
    let k = choose|k: int| 0 <= k < beginning.len() && (#[trigger] beginning[k]).role == "user"@;
    assert((beginning + rest)[0] == beginning[0]);
    if beginning[0].role != "user"@ {
        assert(beginning.drop_first()[k - 1] == beginning[k]);
        assert((beginning + rest).drop_first() =~= beginning.drop_first() + rest);
        lemma_session_texts(beginning.drop_first(), rest);
    }
}

// ---------------------------------------------------------------------------------------------
// What to do with a conversation
// ---------------------------------------------------------------------------------------------

/// A signed reasoning as JSON.
pub open spec fn thinking_json(thinking: ChatThinkingView) -> JsonView {
    JsonView::Object(
        with_optional(
            map!["content"@ => JsonView::Text(thinking.content)],
            "signature"@,
            thinking.signature,
        ),
    )
}

/// A message as JSON; what it leaves open is left out.
pub open spec fn message_json(message: ChatMessageView) -> JsonView {
    JsonView::Object(
        with_value(
            with_value(
                with_optional(
                    with_optional(
                        with_optional(
                            with_value(
                                map!["role"@ => JsonView::Text(message.role)],
                                "content"@,
                                message.content,
                            ),
                            "tool_call_id"@,
                            message.tool_call_id,
                        ),
                        "name"@,
                        message.name,
                    ),
                    "reasoning_content"@,
                    message.reasoning_content,
                ),
                "thinking"@,
                match message.thinking {
                    Some(thinking) => Some(thinking_json(thinking)),
                    None => None,
                },
            ),
            "tool_calls"@,
            match message.tool_calls {
                Some(calls) => Some(tool_calls_json(calls)),
                None => None,
            },
        ),
    )
}

/// The body of the request to the compactor.
pub open spec fn compaction_body(
    config: CompactionConfigView,
    messages: Seq<ChatMessageView>,
    session_id: Seq<char>,
    model: Seq<char>,
) -> JsonView {
    JsonView::Object(
        map![
            "session_id"@ => JsonView::Text(session_id),
            "messages"@ => JsonView::Array(
                messages.map_values(|message: ChatMessageView| message_json(message)),
            ),
            "max_input_tokens"@ => JsonView::Num(
                JsonNumberView::Integer(config.max_input_tokens as int),
            ),
            "keep_recent_turns"@ => JsonView::Num(
                JsonNumberView::Integer(config.keep_recent_turns as int),
            ),
            "model"@ => JsonView::Text(model),
        ],
    )
}

/// `text` without the slashes at its end.
pub open spec fn without_slashes(text: Seq<char>) -> Seq<char>
    decreases text.len(),
{
    if text.len() > 0 && text.last() == '/' {
        without_slashes(text.drop_last())
    } else {
        text
    }
}

/// What to do with a conversation.
#[derive(Debug, PartialEq)]
pub enum CompactionPlan {
    /// It goes on unchanged: compaction is off, or the conversation is within its budget.
    Forward,
    /// It goes on unchanged, since no such way of compaction is known.
    UnsupportedMode,
    /// It goes on unchanged, since there is no compactor to ask.
    MissingEndpoint,
    /// The compactor is asked.
    Ask { url: String, body: Json, timeout_ms: u64 },
}

/// The model of [`CompactionPlan`].
pub enum CompactionPlanView {
    Forward,
    UnsupportedMode,
    MissingEndpoint,
    Ask { url: Seq<char>, body: JsonView, timeout_ms: u64 },
}

impl DeepView for CompactionPlan {
    type V = CompactionPlanView;

    open spec fn deep_view(&self) -> CompactionPlanView {
        match self {
            CompactionPlan::Forward => CompactionPlanView::Forward,
            CompactionPlan::UnsupportedMode => CompactionPlanView::UnsupportedMode,
            CompactionPlan::MissingEndpoint => CompactionPlanView::MissingEndpoint,
            CompactionPlan::Ask { url, body, timeout_ms } => CompactionPlanView::Ask {
                url: url@,
                body: body.deep_view(),
                timeout_ms: *timeout_ms,
            },
        }
    }
}

/// What to do with a conversation.
pub open spec fn compaction_plan(
    config: CompactionConfigView,
    messages: Seq<ChatMessageView>,
    session_id: Seq<char>,
    model: Seq<char>,
) -> CompactionPlanView {
    if !config.enabled || estimated_tokens(messages) <= config.max_input_tokens {
        CompactionPlanView::Forward
    } else if config.mode != "external"@ {
        CompactionPlanView::UnsupportedMode
    } else {
        match config.endpoint {
            None => CompactionPlanView::MissingEndpoint,
            Some(endpoint) => CompactionPlanView::Ask {
                url: without_slashes(endpoint) + "/compact"@,
                body: compaction_body(config, messages, session_id, model),
                timeout_ms: config.timeout_ms,
            },
        }
    }
}

fn trim_slashes(text: &str) -> (result: String)
    ensures
        result@ == without_slashes(text@),
{
    let mut end: usize = text.unicode_len();
    assert(text@.take(end as int) =~= text@);
    while end > 0 && text.get_char(end - 1) == '/'
        invariant
            end <= text@.len(),
            without_slashes(text@) == without_slashes(text@.take(end as int)),
        decreases end,
    {
        assert(text@.take(end as int).drop_last() =~= text@.take(end - 1));
        end = end - 1;
    }
    let result = text.substring_char(0, end).to_string();
    assert(result@ =~= text@.take(end as int));
    result
}

fn make_message_json(message: &ChatMessage) -> (result: Json)
    ensures
        result.deep_view() == message_json(message.deep_view()),
{
    broadcast use lemma_object_model;

    let mut entries: JsonMap = Vec::new();
    set_entry(&mut entries, "role".to_string(), Json::Text(message.role.clone()));
    insert_optional_value(&mut entries, "content", message.content.duplicate());
    insert_optional_string(&mut entries, "tool_call_id", &message.tool_call_id);
    insert_optional_string(&mut entries, "name", &message.name);
    insert_optional_string(&mut entries, "reasoning_content", &message.reasoning_content);
    if let Some(thinking) = &message.thinking {
        let mut signed: JsonMap = Vec::new();
        set_entry(&mut signed, "content".to_string(), Json::Text(thinking.content.clone()));
        insert_optional_string(&mut signed, "signature", &thinking.signature);
        set_entry(&mut entries, "thinking".to_string(), Json::Object(signed));
    }
    if let Some(calls) = &message.tool_calls {
        set_entry(&mut entries, "tool_calls".to_string(), make_tool_calls_json(calls));
    }
    Json::Object(entries)
}

fn make_compaction_body(
    config: &CompactionConfig,
    messages: &Vec<ChatMessage>,
    session_id: &str,
    model: &str,
) -> (result: Json)
    ensures
        result.deep_view() == compaction_body(
            config.deep_view(),
            messages.deep_view(),
            session_id@,
            model@,
        ),
{
    broadcast use lemma_array_model, lemma_object_model;

    let mut items: Vec<Json> = Vec::new();
    for index in 0..messages.len()
        invariant
            items@.len() == index,
            forall|k: int|
                0 <= k < index ==> #[trigger] items@[k].deep_view() == message_json(
                    messages@[k].deep_view(),
                ),
    {
        items.push(make_message_json(&messages[index]));
    }
    assert(items.deep_view() =~= messages.deep_view().map_values(
        |message: ChatMessageView| message_json(message),
    ));
    let mut entries: JsonMap = Vec::new();
    set_entry(&mut entries, "session_id".to_string(), json_text(session_id));
    set_entry(&mut entries, "messages".to_string(), Json::Array(items));
    set_entry(
        &mut entries,
        "max_input_tokens".to_string(),
        Json::Num(JsonNumber::Unsigned(config.max_input_tokens as u64)),
    );
    set_entry(
        &mut entries,
        "keep_recent_turns".to_string(),
        Json::Num(JsonNumber::Unsigned(config.keep_recent_turns as u64)),
    );
    set_entry(&mut entries, "model".to_string(), json_text(model));
    Json::Object(entries)
}

/// What to do with a conversation.
pub fn plan_compaction(
    config: &CompactionConfig,
    messages: &Vec<ChatMessage>,
    session_id: &str,
    model: &str,
) -> (result: CompactionPlan)
    ensures
        result.deep_view() == compaction_plan(
            config.deep_view(),
            messages.deep_view(),
            session_id@,
            model@,
        ),
{
    if !config.enabled || estimate_tokens(messages) <= config.max_input_tokens {
        return CompactionPlan::Forward;
    }
    if !same_text(config.mode.as_str(), "external") {
        return CompactionPlan::UnsupportedMode;
    }
    match &config.endpoint {
        None => CompactionPlan::MissingEndpoint,
        Some(endpoint) => {
            let mut url = trim_slashes(endpoint.as_str());
            url.push_str("/compact");
            CompactionPlan::Ask {
                url,
                body: make_compaction_body(config, messages, session_id, model),
                timeout_ms: config.timeout_ms,
            }
        },
    }
}

/// The answer of a compactor.
#[derive(Debug, PartialEq)]
pub struct CompactResponse {
    pub compacted: bool,
    pub messages: Option<Vec<ChatMessage>>,
}

/// The conversation that goes on: what the compactor made of it, where it made something of it.
pub open spec fn compacted_messages(
    original: Seq<ChatMessageView>,
    compacted: bool,
    messages: Option<Seq<ChatMessageView>>,
) -> Seq<ChatMessageView> {
    match messages {
        Some(messages) => if compacted {
            messages
        } else {
            original
        },
        None => original,
    }
}

/// The conversation that goes on after the compactor has answered, or has failed to.
pub fn apply_compaction(original: Vec<ChatMessage>, answer: Option<CompactResponse>) -> (result: Vec<
    ChatMessage,
>)
    ensures
        result.deep_view() == (match answer {
            Some(answer) => compacted_messages(
                original.deep_view(),
                answer.compacted,
                answer.messages.deep_view(),
            ),
            None => original.deep_view(),
        }),
{
    match answer {
        Some(answer) => match answer.messages {
            Some(messages) => if answer.compacted {
                messages
            } else {
                original
            },
            None => original,
        },
        None => original,
    }
}

/// A conversation is sent to no compactor while compaction is off or the conversation is within
/// its budget.
pub proof fn law_short_conversations_go_on_unchanged(
    config: CompactionConfigView,
    messages: Seq<ChatMessageView>,
    session_id: Seq<char>,
    model: Seq<char>,
)
    requires
        !config.enabled || estimated_tokens(messages) <= config.max_input_tokens,
    ensures
        compaction_plan(config, messages, session_id, model) == CompactionPlanView::Forward,
{
}

// ---------------------------------------------------------------------------------------------
// Laws
// ---------------------------------------------------------------------------------------------

proof fn lemma_message_keys_differ()
    ensures
        "role"@ != "content"@,
        "role"@ != "tool_call_id"@,
        "role"@ != "name"@,
        "role"@ != "reasoning_content"@,
        "role"@ != "thinking"@,
        "role"@ != "tool_calls"@,
        "content"@ != "tool_call_id"@,
        "content"@ != "name"@,
        "content"@ != "reasoning_content"@,
        "content"@ != "thinking"@,
        "content"@ != "tool_calls"@,
        "tool_call_id"@ != "name"@,
        "tool_call_id"@ != "reasoning_content"@,
        "tool_call_id"@ != "thinking"@,
        "tool_call_id"@ != "tool_calls"@,
        "name"@ != "reasoning_content"@,
        "name"@ != "thinking"@,
        "name"@ != "tool_calls"@,
        "reasoning_content"@ != "thinking"@,
        "reasoning_content"@ != "tool_calls"@,
        "thinking"@ != "tool_calls"@,
        "content"@ != "signature"@,
{
    reveal_strlit("role");
    reveal_strlit("content");
    reveal_strlit("tool_call_id");
    reveal_strlit("name");
    reveal_strlit("reasoning_content");
    reveal_strlit("thinking");
    reveal_strlit("tool_calls");
    reveal_strlit("signature");
    assert("role"@.len() == 4 && "role"@[0] == 'r');
    assert("name"@.len() == 4 && "name"@[0] == 'n');
    assert("content"@.len() == 7);
    assert("tool_call_id"@.len() == 12);
    assert("reasoning_content"@.len() == 17);
    assert("thinking"@.len() == 8);
    assert("tool_calls"@.len() == 10);
    assert("signature"@.len() == 9);
}

/// A message is told to the compactor whole: who says it, what they say, which call it answers, what
/// they thought, and what they call; nothing is told that is not there.
pub proof fn law_messages_are_told_whole(message: ChatMessageView)
    ensures
        ({
            let told = message_json(message);
            &&& told.get_str("role"@) == Some(message.role)
            &&& told.get("content"@) == message.content
            &&& told.get_str("tool_call_id"@) == message.tool_call_id
            &&& told.get_str("name"@) == message.name
            &&& told.get_str("reasoning_content"@) == message.reasoning_content
            &&& message.thinking is None ==> told.get("thinking"@) is None
            &&& message.thinking matches Some(thinking) ==> {
                &&& told.get("thinking"@) matches Some(signed)
                &&& signed.get_str("content"@) == Some(thinking.content)
                &&& signed.get_str("signature"@) == thinking.signature
            }
            &&& message.tool_calls is None ==> told.get("tool_calls"@) is None
            &&& message.tool_calls matches Some(calls) ==> told.get("tool_calls"@) == Some(
                tool_calls_json(calls),
            )
        }),
{
    lemma_message_keys_differ();
}

proof fn lemma_body_keys_differ()
    ensures
        "session_id"@ != "messages"@,
        "session_id"@ != "max_input_tokens"@,
        "session_id"@ != "keep_recent_turns"@,
        "session_id"@ != "model"@,
        "messages"@ != "max_input_tokens"@,
        "messages"@ != "keep_recent_turns"@,
        "messages"@ != "model"@,
        "max_input_tokens"@ != "keep_recent_turns"@,
        "max_input_tokens"@ != "model"@,
        "keep_recent_turns"@ != "model"@,
{
    reveal_strlit("session_id");
    reveal_strlit("messages");
    reveal_strlit("max_input_tokens");
    reveal_strlit("keep_recent_turns");
    reveal_strlit("model");
    assert("session_id"@.len() == 10);
    assert("messages"@.len() == 8);
    assert("max_input_tokens"@.len() == 16);
    assert("keep_recent_turns"@.len() == 17);
    assert("model"@.len() == 5);
}

/// A conversation that is too long goes to the compactor, as a whole and in its order, under the name
/// of its session, with the limits that are configured; the compactor is asked at its own address,
/// whether or not that ends with slashes.
pub proof fn law_long_conversations_are_compacted(
    config: CompactionConfigView,
    messages: Seq<ChatMessageView>,
    session_id: Seq<char>,
    model: Seq<char>,
    endpoint: Seq<char>,
)
    requires
        config.enabled,
        config.mode == "external"@,
        config.endpoint == Some(endpoint),
        estimated_tokens(messages) > config.max_input_tokens,
    ensures
        ({
            let limit = JsonNumberView::Integer(config.max_input_tokens as int);
            let recent = JsonNumberView::Integer(config.keep_recent_turns as int);
            &&& compaction_plan(config, messages, session_id, model) matches CompactionPlanView::Ask {
                url,
                body,
                timeout_ms,
            }
            &&& timeout_ms == config.timeout_ms
            &&& body.get_str("session_id"@) == Some(session_id)
            &&& body.get_str("model"@) == Some(model)
            &&& body.get("max_input_tokens"@) == Some(JsonView::Num(limit))
            &&& body.get("keep_recent_turns"@) == Some(JsonView::Num(recent))
            &&& body.get("messages"@) matches Some(JsonView::Array(told))
            &&& told.len() == messages.len()
            &&& forall|k: int|
                0 <= k < messages.len() ==> #[trigger] told[k] == message_json(messages[k])
            &&& exists|base: Seq<char>|
                url == #[trigger] (base + "/compact"@) && base.is_prefix_of(endpoint) && (base.len()
                    > 0 ==> base.last() != '/') && forall|k: int|
                    base.len() <= k < endpoint.len() ==> #[trigger] endpoint[k] == '/'
        }),
{
    lemma_body_keys_differ();
    lemma_slashes(endpoint);
    let base = without_slashes(endpoint);
    assert(compaction_plan(config, messages, session_id, model)->url == base + "/compact"@);
}

proof fn lemma_slashes(text: Seq<char>)
    ensures
        without_slashes(text).is_prefix_of(text),
        without_slashes(text).len() > 0 ==> without_slashes(text).last() != '/',
        forall|k: int| without_slashes(text).len() <= k < text.len() ==> #[trigger] text[k] == '/',
    decreases text.len(),
{
    if text.len() > 0 && text.last() == '/' {
        let shorter = text.drop_last();
        lemma_slashes(shorter);
        assert forall|k: int| without_slashes(text).len() <= k < text.len() implies #[trigger] text[k]
            == '/' by {
            if k < shorter.len() {
                assert(text[k] == shorter[k]);
            }
        }
    }
}

/// A conversation is compacted only where this is switched on, and only by a compactor outside whose
/// address is known.
pub proof fn law_compaction_is_asked_for(
    config: CompactionConfigView,
    messages: Seq<ChatMessageView>,
    session_id: Seq<char>,
    model: Seq<char>,
)
    ensures
        ({
            let plan = compaction_plan(config, messages, session_id, model);
            let is_long = estimated_tokens(messages) > config.max_input_tokens;
            &&& plan is Forward <==> !config.enabled || !is_long
            &&& plan is UnsupportedMode <==> config.enabled && is_long && config.mode != "external"@
            &&& plan is MissingEndpoint <==> config.enabled && is_long && config.mode == "external"@
                && config.endpoint is None
        }),
{
}

/// Four bytes of a conversation are a token, and each message counts with what it says and what it
/// calls.
pub proof fn law_tokens_grow_with_the_conversation(
    messages: Seq<ChatMessageView>,
    count: int,
)
    requires
        0 <= count < messages.len(),
        conversation_size(messages, count) + content_size(messages[count]) + calls_size(
            messages[count],
        ) <= usize::MAX,
    ensures
        conversation_size(messages, count + 1) == conversation_size(messages, count)
            + content_size(messages[count]) + calls_size(messages[count]),
        messages[count].content matches Some(JsonView::Text(text)) ==> content_size(messages[count])
            == byte_len(text),
        messages[count].content is None ==> content_size(messages[count]) == 0,
        messages[count].tool_calls is None ==> calls_size(messages[count]) == 0,
        ({
            let size = conversation_size(messages, messages.len() as int);
            let tokens = estimated_tokens(messages);
            &&& size < 8 ==> tokens == 1
            &&& size >= 8 ==> 4 * tokens <= size < 4 * (tokens + 1)
        }),
{
}

/// What the compactor made of a conversation goes on in its place; where it made nothing of it, the
/// conversation goes on as it was.
pub proof fn law_compacted_conversation_goes_on(
    original: Seq<ChatMessageView>,
    messages: Seq<ChatMessageView>,
)
    ensures
        compacted_messages(original, true, Some(messages)) == messages,
        compacted_messages(original, false, Some(messages)) == original,
        compacted_messages(original, true, None) == original,
        compacted_messages(original, false, None) == original,
{
}

/// A session is told apart by what the system says and by what the user says first; what others say
/// in between makes no difference.
pub proof fn law_sessions_are_told_apart(
    instructions: ChatMessageView,
    other: ChatMessageView,
    prompt: ChatMessageView,
    rest: Seq<ChatMessageView>,
    told: Seq<char>,
    asked: Seq<char>,
)
    requires
        instructions.role == "system"@,
        instructions.content == Some(JsonView::Text(told)),
        other.role != "system"@,
        other.role != "user"@,
        prompt.role == "user"@,
        prompt.content == Some(JsonView::Text(asked)),
    ensures
        session_texts(seq![instructions, other, prompt] + rest) == seq![told, asked],
        session_texts(seq![prompt] + rest) == seq![asked],
{
    reveal_with_fuel(session_texts, 4);
    reveal_strlit("system");
    reveal_strlit("user");
    assert("system"@.len() == 6);
    assert("user"@.len() == 4);
    let all = seq![instructions, other, prompt] + rest;
    assert(all[0] == instructions);
    assert(all.drop_first()[0] == other);
    assert(all.drop_first().drop_first()[0] == prompt);
    assert(session_texts(all) =~= seq![told, asked]);
    let short = seq![prompt] + rest;
    assert(short[0] == prompt);
}

proof fn lemma_hex_fixed(one: nat, other: nat, width: nat)
    requires
        hex_fixed(one, width) == hex_fixed(other, width),
        one < pow(16, width),
        other < pow(16, width),
    ensures
        one == other,
        hex_fixed(one, width).len() == width,
    decreases width,
{
    reveal(pow);
    if width > 0 {
        let first = hex_fixed(one, width);
        let second = hex_fixed(other, width);
        let shorter = (width - 1) as nat;
        assert(first.drop_last() =~= hex_fixed(one / 16, shorter));
        assert(second.drop_last() =~= hex_fixed(other / 16, shorter));
        assert(pow(16, width) == 16 * pow(16, shorter));
        lemma_hex_fixed(one / 16, other / 16, shorter);
        assert(first.last() == hex_digit(one as int % 16));
        assert(second.last() == hex_digit(other as int % 16));
    }
}

/// Different hashes name different sessions.
pub proof fn law_hashes_name_their_sessions(one: u64, other: u64)
    requires
        session_name(one) == session_name(other),
    ensures
        one == other,
{
    reveal_strlit("sess-");
    let prefix = "sess-"@;
    assert(session_name(one).skip(prefix.len() as int) =~= hex_fixed(one as nat, 16));
    assert(session_name(other).skip(prefix.len() as int) =~= hex_fixed(other as nat, 16));
    assert(pow(16, 16) == 0x1_0000_0000_0000_0000) by {
        reveal_with_fuel(pow, 17);
    }
    lemma_hex_fixed(one as nat, other as nat, 16);
}

} // verus!
