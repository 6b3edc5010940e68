//! What stands in a prompt besides the words of the user: reminders, command output, skill
//! listings and headers that clients inject.
use vstd::prelude::*;

use crate::text::{
    byte_len, chars_of, contains_text, has_part, has_prefix, join, joined, lines, lines_of,
    split_first, split_once, strip_prefix, trim_front, trimmed, without_prefix,
};

verus! {

// ---------------------------------------------------------------------------------------------
// Injected lines
// ---------------------------------------------------------------------------------------------

/// A kind of line that clients inject into a prompt.
#[derive(Clone, Copy, Debug, PartialEq, Eq, Structural)]
pub enum InjectedLine {
    /// A header that differs from request to request.
    BillingHeader,
    /// A sentence with the date of today.
    Date,
}

/// Whether `c` is a decimal digit.
pub open spec fn is_digit(c: char) -> bool {
    '0' as int <= c as int <= '9' as int
}

/// Whether `line` is the sentence `Today's date is YYYY-MM-DD.`
pub open spec fn is_date_line(line: Seq<char>) -> bool {
    &&& without_prefix(line, "Today's date is "@) matches Some(rest)
    &&& rest.len() == 11
    &&& rest[10] == '.'
    &&& forall|i: int|
        0 <= i < 10 ==> if i == 4 || i == 7 {
            #[trigger] rest[i] == '-'
        } else {
            is_digit(rest[i])
        }
}

impl InjectedLine {
    /// Whether `line` is of this kind.
    pub open spec fn is(self, line: Seq<char>) -> bool {
        match self {
            InjectedLine::BillingHeader => "x-anthropic-billing-header:"@.is_prefix_of(line),
            InjectedLine::Date => is_date_line(line),
        }
    }
}

/// The lines of `listed` that are not of the given kind.
pub open spec fn kept_lines(listed: Seq<Seq<char>>, kind: InjectedLine) -> Seq<Seq<char>> {
    listed.filter(|line: Seq<char>| !kind.is(line))
}

/// `text` without the lines of the given kind. A line feed at its end stays.
pub open spec fn without_lines(text: Seq<char>, kind: InjectedLine) -> Seq<char> {
    let kept = kept_lines(lines(text), kind);
    if kept.len() == 0 {
        Seq::empty()
    } else if text.len() > 0 && text.last() == '\n' {
        joined(kept, "\n"@).push('\n')
    } else {
        joined(kept, "\n"@)
    }
}

fn is_date_injection_line(line: &str) -> (result: bool)
    ensures
        result == is_date_line(line@),
{
    let rest = match strip_prefix(line, "Today's date is ") {
        Some(rest) => chars_of(rest),
        None => {
            return false;
        },
    };
    if rest.len() != 11 || rest[10] != '.' {
        return false;
    }
    for index in 0..10usize
        invariant
            rest@.len() == 11,
            rest@[10] == '.',
            without_prefix(line@, "Today's date is "@) == Some(rest@),
            forall|i: int|
                0 <= i < index ==> if i == 4 || i == 7 {
                    #[trigger] rest@[i] == '-'
                } else {
                    is_digit(rest@[i])
                },
    {
        let c: char = rest[index];
        let fits = if index == 4 || index == 7 {
            c == '-'
        } else {
            '0' <= c && c <= '9'
        };
        if !fits {
            assert(!(if index == 4 || index == 7 {
                rest@[index as int] == '-'
            } else {
                is_digit(rest@[index as int])
            }));
            return false;
        }
    }
    true
}

fn is_injected(kind: InjectedLine, line: &str) -> (result: bool)
    ensures
        result == kind.is(line@),
{
    match kind {
        InjectedLine::BillingHeader => has_prefix(line, "x-anthropic-billing-header:"),
        InjectedLine::Date => is_date_injection_line(line),
    }
}

fn ends_with_line_feed(text: &str) -> (result: bool)
    ensures
        result == (text@.len() > 0 && text@.last() == '\n'),
{
    let count: usize = text.unicode_len();
    count > 0 && text.get_char(count - 1) == '\n'
}

/// `text` without the lines of the given kind.
pub fn join_filtered_lines(text: &str, kind: InjectedLine) -> (result: String)
    ensures
        result@ == without_lines(text@, kind),
{
    let listed = lines_of(text);
    let ghost all = lines(text@);
    let mut kept: Vec<String> = Vec::new();
    assert(kept.deep_view() =~= kept_lines(all.take(0), kind)) by {
        reveal(Seq::filter);
    }
    for index in 0..listed.len()
        invariant
            all == listed.deep_view(),
            kept.deep_view() == kept_lines(all.take(index as int), kind),
    {
        let ghost before = kept.deep_view();
        proof {
            reveal(Seq::filter);
            assert(all.take(index + 1).drop_last() =~= all.take(index as int));
            assert(all.take(index + 1).last() == listed@[index as int]@);
        }
        if !is_injected(kind, listed[index].as_str()) {
            kept.push(listed[index].clone());
            assert(kept.deep_view() =~= before.push(all[index as int]));
        }
    }
    assert(all.take(all.len() as int) =~= all);
    if kept.len() == 0 {
        return String::new();
    }
    let mut normalized = join(&kept, "\n");
    if ends_with_line_feed(text) {
        normalized.push('\n');
    }
    normalized
}

/// `text` without the headers that differ from request to request.
pub fn strip_billing_nonce(text: &str) -> (result: String)
    ensures
        result@ == without_lines(text@, InjectedLine::BillingHeader),
{
    join_filtered_lines(text, InjectedLine::BillingHeader)
}

/// `text` without the sentences with the date of today.
pub fn strip_date_injection(text: &str) -> (result: String)
    ensures
        result@ == without_lines(text@, InjectedLine::Date),
{
    join_filtered_lines(text, InjectedLine::Date)
}

// ---------------------------------------------------------------------------------------------
// Skill listings and local commands
// ---------------------------------------------------------------------------------------------

/// Whether `c` may stand in the name of a skill.
pub open spec fn is_name_char(c: char) -> bool {
    ||| is_digit(c)
    ||| 'a' as int <= c as int <= 'z' as int
    ||| 'A' as int <= c as int <= 'Z' as int
    ||| c == '-'
    ||| c == '_'
    ||| c == '/'
    ||| c == '.'
    ||| c == '@'
}

/// Whether `line` lists a skill: a bullet, a short name and a colon.
pub open spec fn is_skill_bullet(line: Seq<char>) -> bool {
    &&& without_prefix(line, "- "@) matches Some(rest)
    &&& split_first(rest, ":"@) matches Some((name, _))
    &&& trimmed(name).len() > 0
    &&& byte_len(trimmed(name)) <= 80
    &&& forall|i: int| 0 <= i < trimmed(name).len() ==> is_name_char(#[trigger] trimmed(name)[i])
}

/// How many of `listed` list a skill.
pub open spec fn skill_bullets(listed: Seq<Seq<char>>) -> nat
    decreases listed.len(),
{
    if listed.len() == 0 {
        0
    } else {
        skill_bullets(listed.drop_last()) + if is_skill_bullet(trim_front(listed.last())) {
            1nat
        } else {
            0
        }
    }
}

/// Whether `text` lists skills: at least three of them, and a word on when to use them.
pub open spec fn is_skill_listing(text: Seq<char>) -> bool {
    &&& skill_bullets(lines(text)) >= 3
    &&& {
        ||| has_part(text, "Use when"@)
        ||| has_part(text, "Invoke with"@)
        ||| has_part(text, "TRIGGER when"@)
        ||| has_part(text, "slash command"@)
    }
}

/// Whether `text` is the echo of a command that the user ran in the client.
pub open spec fn is_local_command(text: Seq<char>) -> bool {
    &&& "<command-name>"@.is_prefix_of(text)
    &&& has_part(text, "</command-name>"@)
    &&& has_part(text, "<command-message>"@)
    &&& has_part(text, "</command-message>"@)
}

fn looks_like_skill_listing_bullet(line: &str) -> (result: bool)
    ensures
        result == is_skill_bullet(line@),
{
    let rest = match strip_prefix(line, "- ") {
        Some(rest) => rest,
        None => {
            return false;
        },
    };
    let name = match split_once(rest, ":") {
        Some((name, _)) => name,
        None => {
            return false;
        },
    };
    let name = name.trim();
    if name.is_empty() || name.len() > 80 {
        return false;
    }
    let chars = chars_of(name);
    for index in 0..chars.len()
        invariant
            chars@ == name@,
            without_prefix(line@, "- "@) == Some(rest@),
            split_first(rest@, ":"@) matches Some((given, _)) && trimmed(given) == name@,
            forall|i: int| 0 <= i < index ==> is_name_char(#[trigger] name@[i]),
    {
        let c: char = chars[index];
        let fits = ('0' <= c && c <= '9') || ('a' <= c && c <= 'z') || ('A' <= c && c <= 'Z') || c
            == '-' || c == '_' || c == '/' || c == '.' || c == '@';
        if !fits {
            assert(!is_name_char(name@[index as int]));
            return false;
        }
    }
    true
}

/// Whether `text` lists skills.
pub fn looks_like_claude_code_skill_listing(text: &str) -> (result: bool)
    ensures
        result == is_skill_listing(text@),
{
    let listed = lines_of(text);
    let ghost all = lines(text@);
    let mut bullet_count: usize = 0;
    for index in 0..listed.len()
        invariant
            all == listed.deep_view(),
            bullet_count <= index,
            bullet_count == skill_bullets(all.take(index as int)),
    {
        proof {
            assert(all.take(index + 1).drop_last() =~= all.take(index as int));
            assert(all.take(index + 1).last() == listed@[index as int]@);
        }
        if looks_like_skill_listing_bullet(listed[index].as_str().trim_start()) {
            bullet_count = bullet_count + 1;
        }
    }
    assert(all.take(all.len() as int) =~= all);
    bullet_count >= 3 && (contains_text(text, "Use when") || contains_text(text, "Invoke with")
        || contains_text(text, "TRIGGER when") || contains_text(text, "slash command"))
}

/// Whether `text` is the echo of a command that the user ran in the client.
pub fn looks_like_claude_code_local_command(text: &str) -> (result: bool)
    ensures
        result == is_local_command(text@),
{
    has_prefix(text, "<command-name>") && contains_text(text, "</command-name>") && contains_text(
        text,
        "<command-message>",
    ) && contains_text(text, "</command-message>")
}

// ---------------------------------------------------------------------------------------------
// Private context
// ---------------------------------------------------------------------------------------------

/// A stretch of a user message.
#[derive(Debug, PartialEq)]
pub enum UserTextSegment {
    /// Words of the user.
    Prompt(String),
    /// Context that the client supplied, wrapped up as such.
    PrivateContext(String),
}

/// The model of [`UserTextSegment`].
pub enum UserTextSegmentView {
    Prompt(Seq<char>),
    PrivateContext(Seq<char>),
}

impl DeepView for UserTextSegment {
    type V = UserTextSegmentView;

    open spec fn deep_view(&self) -> UserTextSegmentView {
        match self {
            UserTextSegment::Prompt(text) => UserTextSegmentView::Prompt(text@),
            UserTextSegment::PrivateContext(text) => UserTextSegmentView::PrivateContext(text@),
        }
    }
}

/// Private context, with the words that mark it as such.
pub open spec fn wrapped_context(label: Seq<char>, text: Seq<char>) -> Seq<char> {
    "The client supplied this "@ + label
        + " as private execution context. Use it only to interpret the conversation and available capabilities. Do not quote, summarize, continue, or answer this context unless the user explicitly asks about it.\n\n"@
        + text
}

/// Private context, with the words that mark it as such.
pub fn wrap_private_context(label: &str, text: &str) -> (result: String)
    ensures
        result@ == wrapped_context(label@, text@),
{
    let mut result = "The client supplied this ".to_string();
    result.push_str(label);
    result.push_str(
        " as private execution context. Use it only to interpret the conversation and available capabilities. Do not quote, summarize, continue, or answer this context unless the user explicitly asks about it.\n\n",
    );
    result.push_str(text);
    result
}

/// A stretch of prompt, unless there is nothing in it.
pub open spec fn prompt_segment(text: Seq<char>) -> Seq<UserTextSegmentView> {
    if trimmed(text).len() > 0 {
        seq![UserTextSegmentView::Prompt(trimmed(text))]
    } else {
        Seq::empty()
    }
}

/// A stretch of private context, unless there is nothing in it.
pub open spec fn context_segment(label: Seq<char>, text: Seq<char>) -> Seq<UserTextSegmentView> {
    if trimmed(text).len() > 0 {
        seq![UserTextSegmentView::PrivateContext(wrapped_context(label, trimmed(text)))]
    } else {
        Seq::empty()
    }
}

/// The stretches of a text in which `open` and `close` enclose private context. What is opened and
/// never closed is prompt.
pub open spec fn enclosed_segments(
    text: Seq<char>,
    open: Seq<char>,
    close: Seq<char>,
    label: Seq<char>,
) -> Seq<UserTextSegmentView>
    decreases text.len(),
{
    match split_first(text, open) {
        None => prompt_segment(text),
        Some((before, after)) => prompt_segment(before) + (match split_first(after, close) {
            None => prompt_segment(open + after),
            Some((inner, rest)) => context_segment(label, inner) + (if rest.len() < text.len() {
                enclosed_segments(rest, open, close, label)
            } else {
                Seq::empty()
            }),
        }),
    }
}

/// The stretches of a text with a tag that encloses private context.
pub open spec fn tag_segments(text: Seq<char>, tag: Seq<char>, label: Seq<char>) -> Seq<
    UserTextSegmentView,
> {
    let open = "<"@ + tag + ">"@;
    let close = "</"@ + tag + ">"@;
    if has_part(text, open) {
        enclosed_segments(text, open, close, label)
    } else {
        seq![UserTextSegmentView::Prompt(text)]
    }
}

/// The stretches of `segments`, with those of the prompt taken apart by a tag.
pub open spec fn retagged(
    segments: Seq<UserTextSegmentView>,
    tag: Seq<char>,
    label: Seq<char>,
) -> Seq<UserTextSegmentView>
    decreases segments.len(),
{
    if segments.len() == 0 {
        Seq::empty()
    } else {
        retagged(segments.drop_last(), tag, label) + (match segments.last() {
            UserTextSegmentView::Prompt(text) => tag_segments(text, tag, label),
            context => seq![context],
        })
    }
}

/// The stretches of a user message.
pub open spec fn user_segments(text: Seq<char>) -> Seq<UserTextSegmentView> {
    let inner = trimmed(text);
    if inner.len() == 0 {
        Seq::empty()
    } else if is_skill_listing(inner) {
        seq![UserTextSegmentView::PrivateContext(wrapped_context("skill listing"@, inner))]
    } else if is_local_command(inner) {
        Seq::empty()
    } else {
        retagged(
            retagged(
                seq![UserTextSegmentView::Prompt(text)],
                "system-reminder"@,
                "system reminder"@,
            ),
            "local-command-caveat"@,
            "local command caveat"@,
        )
    }
}

fn push_prompt_segment(segments: &mut Vec<UserTextSegment>, text: &str)
    ensures
        final(segments).deep_view() == old(segments).deep_view() + prompt_segment(text@),
{
    let ghost before = segments.deep_view();
    let text = text.trim();
    if !text.is_empty() {
        segments.push(UserTextSegment::Prompt(text.to_string()));
    }
    assert(segments.deep_view() =~= before + (if text@.len() > 0 {
        seq![UserTextSegmentView::Prompt(text@)]
    } else {
        Seq::empty()
    }));
}

proof fn lemma_split_shortens(text: Seq<char>, separator: Seq<char>)
    requires
        separator.len() > 0,
    ensures
        split_first(text, separator) matches Some((before, after)) ==> after.len() < text.len(),
{
    crate::text::lemma_place_bounds(text, separator, 0);
}

/// The stretches of a text with a tag that encloses private context.
pub fn split_private_context_tag(text: &str, tag: &str, label: &str) -> (result: Vec<UserTextSegment>)
    ensures
        result.deep_view() == tag_segments(text@, tag@, label@),
{
    let mut open = "<".to_string();
    open.push_str(tag);
    open.push_str(">");
    let mut close = "</".to_string();
    close.push_str(tag);
    close.push_str(">");
    proof {
        reveal_strlit("<");
        reveal_strlit("</");
    }
    let mut segments: Vec<UserTextSegment> = Vec::new();
    if !contains_text(text, open.as_str()) {
        segments.push(UserTextSegment::Prompt(text.to_string()));
        assert(segments.deep_view() =~= seq![UserTextSegmentView::Prompt(text@)]);
        return segments;
    }
    let ghost expected = enclosed_segments(text@, open@, close@, label@);
    let mut rest = text;
    assert(segments.deep_view() + expected =~= expected);
    loop
        invariant
            open@.len() > 0,
            close@.len() > 0,
            tag_segments(text@, tag@, label@) == expected,
            segments.deep_view() + enclosed_segments(rest@, open@, close@, label@) == expected,
        decreases rest@.len(),
    {
        let ghost before = segments.deep_view();
        proof {
            lemma_split_shortens(rest@, open@);
        }
        match split_once(rest, open.as_str()) {
            None => {
                push_prompt_segment(&mut segments, rest);
                return segments;
            },
            Some((prompt, after_open)) => {
                push_prompt_segment(&mut segments, prompt);
                proof {
                    lemma_split_shortens(after_open@, close@);
                }
                match split_once(after_open, close.as_str()) {
                    None => {
                        let mut unclosed = open.clone();
                        unclosed.push_str(after_open);
                        push_prompt_segment(&mut segments, unclosed.as_str());
                        assert(segments.deep_view() =~= before + (prompt_segment(prompt@)
                            + prompt_segment(open@ + after_open@)));
                        return segments;
                    },
                    Some((inner, after_close)) => {
                        let ghost prompted = segments.deep_view();
                        let inner_text = inner.trim();
                        if !inner_text.is_empty() {
                            segments.push(
                                UserTextSegment::PrivateContext(
                                    wrap_private_context(label, inner_text),
                                ),
                            );
                        }
                        proof {
                            let context = context_segment(label@, inner@);
                            let later = enclosed_segments(after_close@, open@, close@, label@);
                            assert(segments.deep_view() =~= prompted + context);
                            assert(before + (prompt_segment(prompt@) + (context + later))
                                =~= segments.deep_view() + later);
                        }
                        rest = after_close;
                    },
                }
            },
        }
    }
}

fn split_private_context_tag_segments(
    segments: Vec<UserTextSegment>,
    tag: &str,
    label: &str,
) -> (result: Vec<UserTextSegment>)
    ensures
        result.deep_view() == retagged(segments.deep_view(), tag@, label@),
{
    let ghost given = segments@;
    let ghost models = segments.deep_view();
    let mut result: Vec<UserTextSegment> = Vec::new();
    assert(result.deep_view() =~= retagged(models.take(0), tag@, label@));
    for segment in iter: segments
        invariant
            iter.seq() == given,
            models.len() == given.len(),
            forall|k: int| 0 <= k < given.len() ==> #[trigger] models[k] == given[k].deep_view(),
            result.deep_view() == retagged(models.take(iter.index() as int), tag@, label@),
    {
        let ghost at = iter.index() as int;
        let ghost before = result.deep_view();
        proof {
            assert(models[at] == segment.deep_view());
            assert(models.take(at + 1).drop_last() =~= models.take(at));
        }
        match segment {
            UserTextSegment::Prompt(text) => {
                let mut inner = split_private_context_tag(text.as_str(), tag, label);
                let ghost added = inner.deep_view();
                result.append(&mut inner);
                assert(result.deep_view() =~= before + added);
            },
            UserTextSegment::PrivateContext(text) => {
                let ghost added = UserTextSegmentView::PrivateContext(text@);
                result.push(UserTextSegment::PrivateContext(text));
                assert(result.deep_view() =~= before + seq![added]);
            },
        }
    }
    assert(models.take(models.len() as int) =~= models);
    result
}

/// The stretches of a user message.
pub fn split_user_text_segments(text: &str) -> (result: Vec<UserTextSegment>)
    ensures
        result.deep_view() == user_segments(text@),
{
    let inner = text.trim();
    let mut segments: Vec<UserTextSegment> = Vec::new();
    assert(segments.deep_view() =~= Seq::<UserTextSegmentView>::empty());
    if inner.is_empty() {
        return segments;
    }
    if looks_like_claude_code_skill_listing(inner) {
        segments.push(
            UserTextSegment::PrivateContext(wrap_private_context("skill listing", inner)),
        );
        assert(segments.deep_view() =~= seq![
            UserTextSegmentView::PrivateContext(wrapped_context("skill listing"@, inner@)),
        ]);
        return segments;
    }
    if looks_like_claude_code_local_command(inner) {
        return segments;
    }
    segments.push(UserTextSegment::Prompt(text.to_string()));
    assert(segments.deep_view() =~= seq![UserTextSegmentView::Prompt(text@)]);
    let segments = split_private_context_tag_segments(
        segments,
        "system-reminder",
        "system reminder",
    );
    split_private_context_tag_segments(segments, "local-command-caveat", "local command caveat")
}

} // verus!
