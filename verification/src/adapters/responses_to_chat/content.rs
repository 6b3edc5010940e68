//! The contents of messages, reasoning items and tool results in chat form.
use vstd::prelude::*;

use crate::duplicate::Duplicate;
use crate::json::{
    json_empty_object, json_object1, json_object2, json_optional_text, json_rendered, json_text,
    lemma_array_model, lemma_object_model, map_of, optional_text, render_json, set_entry, Json,
    JsonMap, JsonView,
};
use crate::models::responses::{
    ContentItem, ContentItemView, ReasoningContentItem, ReasoningContentItemView,
    ReasoningSummaryItem, ReasoningSummaryItemView, WebSearchAction, WebSearchActionView,
};
use crate::text::{join, joined};

verus! {

/// `map` with `value` under `key`, where there is a value.
pub open spec fn with_optional(
    map: Map<Seq<char>, JsonView>,
    key: Seq<char>,
    value: Option<Seq<char>>,
) -> Map<Seq<char>, JsonView> {
    match value {
        Some(text) => map.insert(key, JsonView::Text(text)),
        None => map,
    }
}

/// One part of a message in chat form.
pub open spec fn chat_part(item: ContentItemView) -> JsonView {
    match item {
        ContentItemView::InputText { text } | ContentItemView::OutputText { text } => text_part(text),
        ContentItemView::InputImage { image_url: Some(url), file_id, detail } => JsonView::Object(
            map![
                "type"@ => JsonView::Text("image_url"@),
                "image_url"@ => JsonView::Object(
                    with_optional(map!["url"@ => JsonView::Text(url)], "detail"@, detail),
                ),
            ],
        ),
        ContentItemView::InputImage { image_url: None, file_id, detail } => JsonView::Object(
            with_optional(
                with_optional(
                    map!["type"@ => JsonView::Text("input_image"@)],
                    "file_id"@,
                    file_id,
                ),
                "detail"@,
                detail,
            ),
        ),
        ContentItemView::InputFile { file_id, file_url, filename, file_data } => JsonView::Object(
            with_optional(
                with_optional(
                    with_optional(
                        with_optional(
                            map!["type"@ => JsonView::Text("input_file"@)],
                            "file_id"@,
                            file_id,
                        ),
                        "file_url"@,
                        file_url,
                    ),
                    "filename"@,
                    filename,
                ),
                "file_data"@,
                file_data,
            ),
        ),
        ContentItemView::Other(value) => value,
    }
}

/// A text part in chat form.
pub open spec fn text_part(text: Seq<char>) -> JsonView {
    JsonView::Object(
        map!["type"@ => JsonView::Text("text"@), "text"@ => JsonView::Text(text)],
    )
}

/// The content of a message in chat form: the bare text of a lone text, else a list of parts.
pub open spec fn chat_content(content: Seq<ContentItemView>) -> JsonView {
    if content.len() == 0 {
        JsonView::Text(Seq::empty())
    } else if content.len() == 1 {
        match content[0] {
            ContentItemView::InputText { text } | ContentItemView::OutputText { text } =>
            JsonView::Text(text),
            other => JsonView::Array(seq![chat_part(other)]),
        }
    } else {
        JsonView::Array(Seq::new(content.len(), |i: int| chat_part(content[i])))
    }
}

/// Puts the text of `value` under `key`, where there is one.
pub fn insert_optional_string(map: &mut JsonMap, key: &str, value: &Option<String>)
    ensures
        map_of(final(map).deep_view()) == with_optional(
            map_of(old(map).deep_view()),
            key@,
            value.deep_view(),
        ),
{
    if let Some(text) = value {
        set_entry(map, key.to_string(), Json::Text(text.clone()));
    }
}

/// One part of a message in chat form.
pub fn content_item_to_chat_part(item: &ContentItem) -> (result: Json)
    ensures
        result.deep_view() == chat_part(item.deep_view()),
{
    broadcast use lemma_object_model;

    match item {
        ContentItem::InputText { text } | ContentItem::OutputText { text } => json_object2(
            "type",
            json_text("text"),
            "text",
            Json::Text(text.clone()),
        ),
        ContentItem::InputImage { image_url: Some(url), file_id: _, detail } => {
            let mut image_url_value: JsonMap = Vec::new();
            set_entry(&mut image_url_value, "url".to_string(), Json::Text(url.clone()));
            insert_optional_string(&mut image_url_value, "detail", detail);
            json_object2(
                "type",
                json_text("image_url"),
                "image_url",
                Json::Object(image_url_value),
            )
        },
        ContentItem::InputImage { image_url: None, file_id, detail } => {
            let mut part: JsonMap = Vec::new();
            set_entry(&mut part, "type".to_string(), json_text("input_image"));
            insert_optional_string(&mut part, "file_id", file_id);
            insert_optional_string(&mut part, "detail", detail);
            Json::Object(part)
        },
        ContentItem::InputFile { file_id, file_url, filename, file_data } => {
            let mut part: JsonMap = Vec::new();
            set_entry(&mut part, "type".to_string(), json_text("input_file"));
            insert_optional_string(&mut part, "file_id", file_id);
            insert_optional_string(&mut part, "file_url", file_url);
            insert_optional_string(&mut part, "filename", filename);
            insert_optional_string(&mut part, "file_data", file_data);
            Json::Object(part)
        },
        ContentItem::Other(value) => value.duplicate(),
    }
}

/// The content of a message with a single part.
pub fn content_item_to_chat_value(item: &ContentItem) -> (result: Json)
    ensures
        result.deep_view() == chat_content(seq![item.deep_view()]),
{
    broadcast use lemma_array_model;

    match item {
        ContentItem::InputText { text } | ContentItem::OutputText { text } => Json::Text(
            text.clone(),
        ),
        _ => {
            let parts = vec![content_item_to_chat_part(item)];
            assert(parts.deep_view() =~= seq![chat_part(item.deep_view())]);
            Json::Array(parts)
        },
    }
}

/// The content of a message in chat form.
pub fn message_content_to_chat_value(content: &Vec<ContentItem>) -> (result: Json)
    ensures
        result.deep_view() == chat_content(content.deep_view()),
{
    broadcast use lemma_array_model;

    if content.len() == 0 {
        return Json::Text(String::new());
    }
    if content.len() == 1 {
        assert(content.deep_view() =~= seq![content@[0].deep_view()]);
        return content_item_to_chat_value(&content[0]);
    }
    let mut parts: Vec<Json> = Vec::new();
    for index in 0..content.len()
        invariant
            parts@.len() == index,
            forall|k: int|
                0 <= k < index ==> #[trigger] parts@[k].deep_view() == chat_part(
                    content@[k].deep_view(),
                ),
    {
        parts.push(content_item_to_chat_part(&content[index]));
    }
    assert(parts.deep_view() =~= Seq::new(
        content@.len(),
        |i: int| chat_part(content.deep_view()[i]),
    ));
    Json::Array(parts)
}

/// The text of a value: a JSON text as it is, any other value as JSON text.
pub open spec fn plain_text(value: JsonView) -> Seq<char> {
    match value {
        JsonView::Text(text) => text,
        other => json_rendered(other),
    }
}

/// The text of a tool output.
pub fn stringify_tool_output(value: &Json) -> (result: String)
    ensures
        result@ == plain_text(value.deep_view()),
{
    match value {
        Json::Text(text) => text.clone(),
        _ => render_json(value),
    }
}

/// The arguments of a tool call; a call without any has the empty object.
pub open spec fn call_arguments(arguments: Option<JsonView>) -> JsonView {
    match arguments {
        Some(value) => value,
        None => JsonView::Object(Map::empty()),
    }
}

/// The arguments of a tool call; a call without any has the empty object.
pub fn tool_call_arguments_object(arguments: &Option<Json>) -> (result: Json)
    ensures
        result.deep_view() == call_arguments(arguments.deep_view()),
{
    match arguments {
        Some(value) => value.duplicate(),
        None => json_empty_object(),
    }
}

/// The query of a search: the single one, or else the first of several.
pub open spec fn search_query(
    query: Option<Seq<char>>,
    queries: Option<Seq<Seq<char>>>,
) -> Option<Seq<char>> {
    match query {
        Some(text) => Some(text),
        None => match queries {
            Some(list) => if list.len() > 0 {
                Some(list[0])
            } else {
                None
            },
            None => None,
        },
    }
}

/// The arguments that a web search call is replayed with.
pub open spec fn search_arguments(action: Option<WebSearchActionView>) -> JsonView {
    match action {
        Some(WebSearchActionView::Search { query, queries }) => match search_query(query, queries) {
            Some(text) => JsonView::Object(map!["query"@ => JsonView::Text(text)]),
            None => JsonView::Object(Map::empty()),
        },
        Some(WebSearchActionView::OpenPage { url }) => JsonView::Object(
            map!["url"@ => optional_text(url)],
        ),
        Some(WebSearchActionView::FindInPage { url, pattern }) => JsonView::Object(
            map!["url"@ => optional_text(url), "pattern"@ => optional_text(pattern)],
        ),
        Some(WebSearchActionView::Other) => JsonView::Object(Map::empty()),
        None => JsonView::Object(Map::empty()),
    }
}

fn first_query(query: &Option<String>, queries: &Option<Vec<String>>) -> (result: Option<String>)
    ensures
        result.deep_view() == search_query(query.deep_view(), queries.deep_view()),
{
    match query {
        Some(text) => Some(text.clone()),
        None => match queries {
            Some(list) => if list.len() > 0 {
                Some(list[0].clone())
            } else {
                None
            },
            None => None,
        },
    }
}

/// The arguments that a web search call is replayed with.
pub fn web_search_arguments(action: &Option<WebSearchAction>) -> (result: Json)
    ensures
        result.deep_view() == search_arguments(action.deep_view()),
{
    match action {
        Some(WebSearchAction::Search { query, queries }) => match first_query(query, queries) {
            Some(text) => json_object1("query", Json::Text(text)),
            None => json_empty_object(),
        },
        Some(WebSearchAction::OpenPage { url }) => json_object1("url", json_optional_text(url)),
        Some(WebSearchAction::FindInPage { url, pattern }) => json_object2(
            "url",
            json_optional_text(url),
            "pattern",
            json_optional_text(pattern),
        ),
        Some(WebSearchAction::Other) => json_empty_object(),
        None => json_empty_object(),
    }
}

/// `label` and `value`, where there is a value.
pub open spec fn labelled(label: Seq<char>, value: Option<Seq<char>>) -> Seq<char> {
    match value {
        Some(text) => label + text,
        None => Seq::empty(),
    }
}

/// What a lost web search result is replayed as.
pub open spec fn search_placeholder(action: Option<WebSearchActionView>) -> Seq<char> {
    match action {
        Some(WebSearchActionView::Search { query, queries }) => {
            lost_result("web_search"@) + labelled(" Query: "@, search_query(query, queries))
        },
        Some(WebSearchActionView::OpenPage { url }) => {
            lost_result("web_search open_page"@) + labelled(" URL: "@, url)
        },
        Some(WebSearchActionView::FindInPage { url, pattern }) => {
            lost_result("web_search find_in_page"@) + labelled(" URL: "@, url) + (if url is Some
                && pattern is Some {
                "."@
            } else {
                Seq::empty()
            }) + labelled(" Pattern: "@, pattern)
        },
        Some(WebSearchActionView::Other) => lost_result("web_search"@),
        None => lost_result("web_search"@),
    }
}

/// The sentence that a call named `call` came to an end and its result is gone.
pub open spec fn lost_result(call: Seq<char>) -> Seq<char> {
    "Previous "@ + call
        + " completed in an earlier turn, but the original tool result is unavailable because replay state was missing."@
}

fn push_labelled(text: &mut String, label: &str, value: &Option<String>)
    ensures
        final(text)@ == old(text)@ + labelled(label@, value.deep_view()),
{
    match value {
        Some(value) => {
            text.push_str(label);
            text.push_str(value.as_str());
            assert(text@ =~= old(text)@ + (label@ + value@));
        },
        None => {
            assert(text@ =~= old(text)@ + Seq::<char>::empty());
        },
    }
}

fn lost_result_text(call: &str) -> (result: String)
    ensures
        result@ == lost_result(call@),
{
    let mut result = "Previous ".to_string();
    result.push_str(call);
    result.push_str(
        " completed in an earlier turn, but the original tool result is unavailable because replay state was missing.",
    );
    result
}

/// What a lost web search result is replayed as.
pub fn web_search_placeholder_result(action: &Option<WebSearchAction>) -> (result: String)
    ensures
        result@ == search_placeholder(action.deep_view()),
{
    match action {
        Some(WebSearchAction::Search { query, queries }) => {
            let mut result = lost_result_text("web_search");
            let query = first_query(query, queries);
            push_labelled(&mut result, " Query: ", &query);
            result
        },
        Some(WebSearchAction::OpenPage { url }) => {
            let mut result = lost_result_text("web_search open_page");
            push_labelled(&mut result, " URL: ", url);
            result
        },
        Some(WebSearchAction::FindInPage { url, pattern }) => {
            let mut result = lost_result_text("web_search find_in_page");
            push_labelled(&mut result, " URL: ", url);
            let ghost located = result@;
            if url.is_some() && pattern.is_some() {
                result.push_str(".");
            } else {
                assert(located =~= located + Seq::<char>::empty());
            }
            push_labelled(&mut result, " Pattern: ", pattern);
            result
        },
        Some(WebSearchAction::Other) => lost_result_text("web_search"),
        None => lost_result_text("web_search"),
    }
}

/// The text of a part of a reasoning item.
pub open spec fn reasoning_part(item: ReasoningContentItemView) -> Seq<char> {
    match item {
        ReasoningContentItemView::ReasoningText { text } => text,
        ReasoningContentItemView::Text { text } => text,
    }
}

/// The texts of `parts` that are not empty.
pub open spec fn filled(parts: Seq<Seq<char>>) -> Seq<Seq<char>> {
    parts.filter(|text: Seq<char>| text.len() > 0)
}

/// The text of a reasoning item: the parts of its summary and of its content that are not empty,
/// one to a line.
pub open spec fn reasoning_text(
    summary: Seq<ReasoningSummaryItemView>,
    content: Option<Seq<ReasoningContentItemView>>,
) -> Seq<char> {
    let summaries = summary.map_values(
        |item: ReasoningSummaryItemView| item->text,
    );
    let contents = match content {
        Some(items) => items.map_values(|item: ReasoningContentItemView| reasoning_part(item)),
        None => Seq::empty(),
    };
    joined(filled(summaries) + filled(contents), "\n"@)
}

/// The text of a part of a reasoning item.
pub fn reasoning_content_text(item: &ReasoningContentItem) -> (result: String)
    ensures
        result@ == reasoning_part(item.deep_view()),
{
    match item {
        ReasoningContentItem::ReasoningText { text } | ReasoningContentItem::Text { text } => text.clone(),
    }
}

/// The text of a reasoning item.
pub fn reasoning_item_text(
    summary: &Vec<ReasoningSummaryItem>,
    content: &Option<Vec<ReasoningContentItem>>,
) -> (result: String)
    ensures
        result@ == reasoning_text(summary.deep_view(), content.deep_view()),
{
    let ghost summaries = summary.deep_view().map_values(
        |item: ReasoningSummaryItemView| item->text,
    );
    let mut pieces: Vec<String> = Vec::new();
    assert(pieces.deep_view() =~= filled(summaries.take(0))) by {
        reveal(Seq::filter);
    }
    for index in 0..summary.len()
        invariant
            summaries == summary.deep_view().map_values(|item: ReasoningSummaryItemView| item->text),
            pieces.deep_view() == filled(summaries.take(index as int)),
    {
        let ReasoningSummaryItem::SummaryText { text } = &summary[index];
        let ghost before = pieces.deep_view();
        proof {
            lemma_filled_step(summaries, index as int);
            assert(summaries[index as int] == text@);
        }
        if !text.is_empty() {
            pieces.push(text.clone());
            assert(pieces.deep_view() =~= before.push(text@));
        }
    }
    assert(summaries.take(summaries.len() as int) =~= summaries);
    let ghost first = pieces.deep_view();
    match content {
        Some(items) => {
            let ghost contents = items.deep_view().map_values(
                |item: ReasoningContentItemView| reasoning_part(item),
            );
            assert(first =~= first + filled(contents.take(0))) by {
                reveal(Seq::filter);
            }
            for index in 0..items.len()
                invariant
                    contents == items.deep_view().map_values(
                        |item: ReasoningContentItemView| reasoning_part(item),
                    ),
                    pieces.deep_view() == first + filled(contents.take(index as int)),
            {
                let text = reasoning_content_text(&items[index]);
                let ghost before = pieces.deep_view();
                proof {
                    lemma_filled_step(contents, index as int);
                    assert(contents[index as int] == text@);
                }
                if !text.is_empty() {
                    let ghost added = text@;
                    pieces.push(text);
                    assert(pieces.deep_view() =~= before.push(added));
                    assert(pieces.deep_view() =~= first + filled(contents.take(index + 1)));
                }
            }
            assert(contents.take(contents.len() as int) =~= contents);
        },
        None => {
            assert(filled(Seq::empty()) =~= Seq::<Seq<char>>::empty()) by {
                reveal(Seq::filter);
            }
            assert(first =~= first + filled(Seq::empty()));
        },
    }
    join(&pieces, "\n")
}

proof fn lemma_filled_step(parts: Seq<Seq<char>>, at: int)
    requires
        0 <= at < parts.len(),
    ensures
        filled(parts.take(at + 1)) == if parts[at].len() > 0 {
            filled(parts.take(at)).push(parts[at])
        } else {
            filled(parts.take(at))
        },
{
    reveal(Seq::filter);
    assert(parts.take(at + 1).drop_last() =~= parts.take(at));
}

} // verus!
