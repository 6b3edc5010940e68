//! Operations on text, modelled as sequences of characters.
use vstd::prelude::*;

verus! {

/// Whether `c` has the Unicode property `White_Space`.
pub open spec fn is_white(c: char) -> bool {
    let code = c as int;
    ||| 0x9 <= code <= 0xd
    ||| code == 0x20
    ||| code == 0x85
    ||| code == 0xa0
    ||| code == 0x1680
    ||| 0x2000 <= code <= 0x200a
    ||| code == 0x2028
    ||| code == 0x2029
    ||| code == 0x202f
    ||| code == 0x205f
    ||| code == 0x3000
}

/// `text` without its leading whitespace.
pub open spec fn trim_front(text: Seq<char>) -> Seq<char>
    decreases text.len(),
{
    if text.len() > 0 && is_white(text[0]) {
        trim_front(text.drop_first())
    } else {
        text
    }
}

/// `text` without its trailing whitespace.
pub open spec fn trim_back(text: Seq<char>) -> Seq<char>
    decreases text.len(),
{
    if text.len() > 0 && is_white(text.last()) {
        trim_back(text.drop_last())
    } else {
        text
    }
}

/// `text` without whitespace at either end.
pub open spec fn trimmed(text: Seq<char>) -> Seq<char> {
    trim_back(trim_front(text))
}

/// `c` with an ASCII capital letter replaced by its small letter.
pub open spec fn ascii_lower(c: char) -> char {
    if 'A' as int <= c as int <= 'Z' as int {
        (c as u8 + 32) as u8 as char
    } else {
        c
    }
}

/// `text` with every ASCII capital letter made small.
pub open spec fn lowered(text: Seq<char>) -> Seq<char> {
    text.map_values(|c: char| ascii_lower(c))
}

/// `parts` with `separator` between each two neighbours.
pub open spec fn joined(parts: Seq<Seq<char>>, separator: Seq<char>) -> Seq<char>
    decreases parts.len(),
{
    if parts.len() == 0 {
        Seq::empty()
    } else if parts.len() == 1 {
        parts[0]
    } else {
        joined(parts.drop_last(), separator) + separator + parts.last()
    }
}

/// `parts` one after the other.
pub open spec fn concatenated(parts: Seq<Seq<char>>) -> Seq<char>
    decreases parts.len(),
{
    if parts.len() == 0 {
        Seq::empty()
    } else {
        concatenated(parts.drop_last()) + parts.last()
    }
}

/// Whether `text` comes strictly before `other`, character by character in code point order.
pub open spec fn text_less(text: Seq<char>, other: Seq<char>) -> bool
    decreases text.len(),
{
    if other.len() == 0 {
        false
    } else if text.len() == 0 {
        true
    } else if text[0] != other[0] {
        (text[0] as int) < (other[0] as int)
    } else {
        text_less(text.drop_first(), other.drop_first())
    }
}

/// How many bytes `text` takes in UTF-8.
pub open spec fn byte_len(text: Seq<char>) -> usize {
    vstd::utf8::encode_utf8(text).len() as usize
}

/// The first place at or after `from` where `part` stands in `text`.
pub open spec fn place_from(text: Seq<char>, part: Seq<char>, from: int) -> Option<int>
    decreases text.len() - from + 1,
{
    if from < 0 || from + part.len() > text.len() {
        None
    } else if text.subrange(from, from + part.len()) == part {
        Some(from)
    } else {
        place_from(text, part, from + 1)
    }
}

/// Whether `part` stands somewhere in `text`.
pub open spec fn has_part(text: Seq<char>, part: Seq<char>) -> bool {
    place_from(text, part, 0) is Some
}

/// What stands before and after the first `separator` in `text`.
pub open spec fn split_first(text: Seq<char>, separator: Seq<char>) -> Option<
    (Seq<char>, Seq<char>),
> {
    match place_from(text, separator, 0) {
        Some(place) => Some(
            (
                text.subrange(0, place),
                text.subrange(place + separator.len(), text.len() as int),
            ),
        ),
        None => None,
    }
}

/// `text` without `prefix`, where it begins with it.
pub open spec fn without_prefix(text: Seq<char>, prefix: Seq<char>) -> Option<Seq<char>> {
    if prefix.is_prefix_of(text) {
        Some(text.skip(prefix.len() as int))
    } else {
        None
    }
}

/// The line without a carriage return at its end.
pub open spec fn without_return(line: Seq<char>) -> Seq<char> {
    if line.len() > 0 && line.last() == '\r' {
        line.drop_last()
    } else {
        line
    }
}

/// The lines of `text`. A line ends with a line feed or with a carriage return and a line feed,
/// which are no part of it; the last line may end with the text.
pub open spec fn lines(text: Seq<char>) -> Seq<Seq<char>>
    decreases text.len(),
{
    if text.len() == 0 {
        Seq::empty()
    } else if text.contains('\n') {
        let end = text.index_of_first('\n')->0;
        if 0 <= end < text.len() {
            seq![without_return(text.take(end))] + lines(text.skip(end + 1))
        } else {
            Seq::empty()
        }
    } else {
        seq![text]
    }
}

/// `str::trim` removes the leading and the trailing characters with the property `White_Space`.
pub assume_specification<'a>[ str::trim ](text: &'a str) -> (result: &'a str)
    ensures
        result@ == trimmed(text@),
;

/// `str::trim_start` removes the leading characters with the property `White_Space`.
pub assume_specification<'a>[ str::trim_start ](text: &'a str) -> (result: &'a str)
    ensures
        result@ == trim_front(text@),
;

/// `str::to_ascii_lowercase` maps each ASCII capital letter to its small letter and keeps the rest.
pub assume_specification[ str::to_ascii_lowercase ](text: &str) -> (result: String)
    ensures
        result@ == lowered(text@),
;

/// `str::eq_ignore_ascii_case` compares the two texts as if both were lowered first.
pub assume_specification[ str::eq_ignore_ascii_case ](text: &str, other: &str) -> (result: bool)
    ensures
        result == (lowered(text@) == lowered(other@)),
;

/// `String::push` appends one character.
pub assume_specification[ String::push ](text: &mut String, c: char)
    ensures
        final(text)@ == old(text)@.push(c),
;

/// `String::push_str` appends a text.
pub assume_specification[ String::push_str ](text: &mut String, other: &str)
    ensures
        final(text)@ == old(text)@ + other@,
;

/// `String::is_empty` holds of the text without characters.
pub assume_specification[ String::is_empty ](text: &String) -> (result: bool)
    ensures
        result == (text@.len() == 0),
;

/// `==` on two texts: they have the same characters.
#[verifier::external_body]
pub(crate) fn same_text(text: &str, other: &str) -> (result: bool)
    ensures
        result == (text@ == other@),
{
    text == other
}

/// `<` on two texts: the order of their UTF-8 bytes, which is the order of their code points.
#[verifier::external_body]
pub(crate) fn text_precedes(text: &str, other: &str) -> (result: bool)
    ensures
        result == text_less(text@, other@),
{
    text < other
}

/// `str::starts_with` with a text as the pattern.
#[verifier::external_body]
pub(crate) fn has_prefix(text: &str, prefix: &str) -> (result: bool)
    ensures
        result == prefix@.is_prefix_of(text@),
{
    text.starts_with(prefix)
}

/// `str::contains` with a text as the pattern.
#[verifier::external_body]
pub(crate) fn contains_text(text: &str, part: &str) -> (result: bool)
    ensures
        result == has_part(text@, part@),
{
    text.contains(part)
}

/// `str::split_once` with a text as the delimiter: what stands before and after its first
/// occurrence.
#[verifier::external_body]
pub(crate) fn split_once<'a>(text: &'a str, separator: &str) -> (result: Option<(&'a str, &'a str)>)
    ensures
        result.deep_view() == split_first(text@, separator@),
{
    text.split_once(separator)
}

/// `str::strip_prefix` with a text as the prefix.
#[verifier::external_body]
pub(crate) fn strip_prefix<'a>(text: &'a str, prefix: &str) -> (result: Option<&'a str>)
    ensures
        result.deep_view() == without_prefix(text@, prefix@),
{
    text.strip_prefix(prefix)
}

/// `text` in quotation marks, as the `Debug` format of a `str` writes it.
pub uninterp spec fn quoted(text: Seq<char>) -> Seq<char>;

/// The `Debug` format of a `str`: the text in quotation marks, with escapes. It depends on the text
/// alone.
#[verifier::external_body]
pub(crate) fn quoted_text(text: &str) -> (result: String)
    ensures
        result@ == quoted(text@),
{
    format!("{text:?}")
}

/// The lines of a text.
pub fn lines_of(text: &str) -> (result: Vec<String>)
    ensures
        result.deep_view() == lines(text@),
{
    let chars = chars_of(text);
    let ghost whole = text@;
    let mut result: Vec<String> = Vec::new();
    let mut current = String::new();
    let ghost mut start: int = 0;
    let mut index: usize = 0;
    assert(whole.skip(0) =~= whole);
    assert(result.deep_view() + lines(whole) =~= lines(whole));
    assert(whole.subrange(0, 0) =~= Seq::empty());
    while index < chars.len()
        invariant
            chars@ == whole,
            0 <= start <= index <= whole.len(),
            lines(whole) == result.deep_view() + lines(whole.skip(start)),
            forall|k: int| start <= k < index ==> whole[k] != '\n',
            current@ == (if index < whole.len() && whole[index as int] == '\n' {
                without_return(whole.subrange(start, index as int))
            } else {
                whole.subrange(start, index as int)
            }),
        decreases chars.len() - index,
    {
        let c: char = chars[index];
        if c == '\n' {
            let ghost rest = whole.skip(start);
            let ghost end = index - start;
            let ghost before = result.deep_view();
            proof {
                assert(rest[end] == '\n');
                assert(rest.contains('\n'));
                let first = rest.index_of_first('\n')->0;
                rest.index_of_first_ensures('\n');
                assert(first == end) by {
                    if first < end {
                        assert(whole[start + first] == rest[first]);
                    }
                }
                assert(rest.take(end) =~= whole.subrange(start, index as int));
                assert(rest.skip(end + 1) =~= whole.skip(index + 1));
            }
            let mut line = String::new();
            std::mem::swap(&mut line, &mut current);
            let ghost added = line@;
            result.push(line);
            proof {
                assert(result.deep_view() =~= before.push(added));
                assert(before + (seq![added] + lines(whole.skip(index + 1))) =~= result.deep_view()
                    + lines(whole.skip(index + 1)));
                start = index + 1;
                assert(whole.subrange(start, index + 1) =~= Seq::empty());
            }
        } else {
            assert(whole.subrange(start, index + 1) =~= whole.subrange(start, index as int).push(c));
            if !(c == '\r' && index + 1 < chars.len() && chars[index + 1] == '\n') {
                current.push(c);
            } else {
                assert(whole.subrange(start, index + 1).drop_last() =~= whole.subrange(
                    start,
                    index as int,
                ));
            }
        }
        index = index + 1;
    }
    let ghost rest = whole.skip(start);
    assert(rest =~= whole.subrange(start, whole.len() as int));
    assert(!rest.contains('\n')) by {
        if rest.contains('\n') {
            let k = choose|k: int| 0 <= k < rest.len() && rest[k] == '\n';
            assert(whole[start + k] == '\n');
        }
    }
    let ghost before = result.deep_view();
    if !current.is_empty() {
        let ghost added = current@;
        result.push(current);
        assert(result.deep_view() =~= before + seq![added]);
    } else {
        assert(lines(rest) =~= Seq::empty());
        assert(result.deep_view() =~= before + Seq::empty());
    }
    result
}

/// The characters of a text.
pub fn chars_of(text: &str) -> (result: Vec<char>)
    ensures
        result@ == text@,
{
    let mut result: Vec<char> = Vec::new();
    for c in iter: text.chars()
        invariant
            iter.seq() == text@,
            result@ == text@.take(iter.index() as int),
    {
        result.push(c);
        assert(result@ =~= text@.take(iter.index() as int + 1));
    }
    assert(text@.take(text@.len() as int) =~= text@);
    result
}

/// The parts with `separator` between neighbours.
pub fn join(parts: &Vec<String>, separator: &str) -> (result: String)
    ensures
        result@ == joined(parts.deep_view(), separator@),
{
    let mut result = String::new();
    for index in 0..parts.len()
        invariant
            result@ == joined(parts.deep_view().take(index as int), separator@),
    {
        let ghost before = parts.deep_view().take(index as int);
        let ghost after = parts.deep_view().take(index + 1);
        assert(after.drop_last() =~= before);
        assert(after.last() == parts@[index as int]@);
        if index > 0 {
            result.push_str(separator);
        }
        result.push_str(parts[index].as_str());
        proof {
            if index == 0 {
                assert(result@ =~= after[0]);
            }
        }
    }
    assert(parts.deep_view().take(parts@.len() as int) =~= parts.deep_view());
    result
}

/// The parts one after the other.
pub fn concat(parts: &Vec<String>) -> (result: String)
    ensures
        result@ == concatenated(parts.deep_view()),
{
    let mut result = String::new();
    for index in 0..parts.len()
        invariant
            result@ == concatenated(parts.deep_view().take(index as int)),
    {
        let ghost after = parts.deep_view().take(index + 1);
        assert(after.drop_last() =~= parts.deep_view().take(index as int));
        assert(after.last() == parts@[index as int]@);
        result.push_str(parts[index].as_str());
    }
    assert(parts.deep_view().take(parts@.len() as int) =~= parts.deep_view());
    result
}

/// A part that is found lies within the text, and not before the place where the search began.
pub proof fn lemma_place_bounds(text: Seq<char>, part: Seq<char>, from: int)
    requires
        0 <= from,
    ensures
        place_from(text, part, from) matches Some(place) ==> from <= place && place + part.len()
            <= text.len(),
    decreases text.len() - from + 1,
{
    if from + part.len() <= text.len() && text.subrange(from, from + part.len()) != part {
        lemma_place_bounds(text, part, from + 1);
    }
}

/// Trimming twice is trimming once.
pub proof fn lemma_trimmed_idempotent(text: Seq<char>)
    ensures
        trimmed(trimmed(text)) == trimmed(text),
{
    lemma_trim_front_stable(text);
    lemma_trim_back_keeps_front(trim_front(text));
    lemma_trim_back_stable(trim_front(text));
}

/// What is left after trimming is a piece of the text.
pub proof fn lemma_trimmed_is_piece(text: Seq<char>)
    ensures
        exists|from: int, to: int|
            0 <= from <= to <= text.len() && trimmed(text) == #[trigger] text.subrange(from, to),
{
    let front = trim_front(text);
    let from = text.len() - front.len();
    let to = from + trimmed(text).len();
    lemma_trim_front_is_rest(text);
    lemma_trim_back_is_prefix(front);
    assert(trimmed(text) =~= text.subrange(from, to));
}

proof fn lemma_trim_front_is_rest(text: Seq<char>)
    ensures
        trim_front(text).len() <= text.len(),
        trim_front(text) == text.skip(text.len() - trim_front(text).len()),
    decreases text.len(),
{
    if text.len() > 0 && is_white(text[0]) {
        lemma_trim_front_is_rest(text.drop_first());
    }
    assert(trim_front(text) =~= text.skip(text.len() - trim_front(text).len()));
}

proof fn lemma_trim_back_is_prefix(text: Seq<char>)
    ensures
        trim_back(text).len() <= text.len(),
        trim_back(text) == text.take(trim_back(text).len() as int),
    decreases text.len(),
{
    if text.len() > 0 && is_white(text.last()) {
        lemma_trim_back_is_prefix(text.drop_last());
    }
    assert(trim_back(text) =~= text.take(trim_back(text).len() as int));
}

proof fn lemma_trim_front_stable(text: Seq<char>)
    ensures
        trim_front(text).len() > 0 ==> !is_white(trim_front(text)[0]),
    decreases text.len(),
{
    if text.len() > 0 && is_white(text[0]) {
        lemma_trim_front_stable(text.drop_first());
    }
}

proof fn lemma_trim_back_stable(text: Seq<char>)
    ensures
        trim_back(text).len() > 0 ==> !is_white(trim_back(text).last()),
        trim_back(trim_back(text)) == trim_back(text),
    decreases text.len(),
{
    if text.len() > 0 && is_white(text.last()) {
        lemma_trim_back_stable(text.drop_last());
    }
}

proof fn lemma_trim_back_keeps_front(text: Seq<char>)
    requires
        text.len() > 0 ==> !is_white(text[0]),
    ensures
        trim_back(text).is_prefix_of(text),
        trim_front(trim_back(text)) == trim_back(text),
    decreases text.len(),
{
    if text.len() > 0 && is_white(text.last()) {
        lemma_trim_back_keeps_front(text.drop_last());
    }
}

/// No text comes before itself.
pub proof fn lemma_text_less_irreflexive(text: Seq<char>)
    ensures
        !text_less(text, text),
    decreases text.len(),
{
    if text.len() > 0 {
        lemma_text_less_irreflexive(text.drop_first());
    }
}

/// Of two texts that differ one comes before the other.
pub proof fn lemma_text_less_total(text: Seq<char>, other: Seq<char>)
    ensures
        text_less(text, other) || text_less(other, text) || text == other,
    decreases text.len(),
{
    if text.len() == 0 && other.len() == 0 {
        assert(text =~= other);
    } else if text.len() > 0 && other.len() > 0 && text[0] == other[0] {
        lemma_text_less_total(text.drop_first(), other.drop_first());
        if text.drop_first() == other.drop_first() {
            assert(text =~= seq![text[0]] + text.drop_first());
            assert(other =~= seq![other[0]] + other.drop_first());
        }
    } else if text.len() > 0 && other.len() > 0 {
        assert(text[0] as int != other[0] as int);
    }
}

/// The order of texts is transitive.
pub proof fn lemma_text_less_transitive(first: Seq<char>, second: Seq<char>, third: Seq<char>)
    requires
        text_less(first, second),
        text_less(second, third),
    ensures
        text_less(first, third),
    decreases first.len(),
{
    if first.len() > 0 && first[0] == second[0] && second[0] == third[0] {
        lemma_text_less_transitive(first.drop_first(), second.drop_first(), third.drop_first());
    }
}

/// The digit that stands for `n`.
pub open spec fn digit(n: int) -> char {
    ('0' as u8 + n) as u8 as char
}

/// `n` in decimal notation.
pub open spec fn decimal(n: nat) -> Seq<char>
    decreases n,
{
    if n < 10 {
        seq![digit(n as int)]
    } else {
        decimal(n / 10).push(digit(n as int % 10))
    }
}

/// `n` in decimal notation.
pub fn decimal_text(n: usize) -> (result: String)
    ensures
        result@ == decimal(n as nat),
    decreases n,
{
    let last: char = (48u8 + (n % 10) as u8) as char;
    let mut result = if n < 10 {
        String::new()
    } else {
        decimal_text(n / 10)
    };
    result.push(last);
    assert(n < 10 ==> result@ =~= decimal(n as nat));
    result
}

/// Trimming takes away whitespace at both ends and nothing else.
pub proof fn law_trimming_takes_only_whitespace(text: Seq<char>)
    ensures
        exists|from: int, to: int|
            0 <= from <= to <= text.len() && trimmed(text) == #[trigger] text.subrange(from, to)
                && (forall|k: int| 0 <= k < from ==> is_white(#[trigger] text[k])) && (forall|k: int|
                to <= k < text.len() ==> is_white(#[trigger] text[k])),
        trimmed(text).len() > 0 ==> !is_white(trimmed(text)[0]) && !is_white(trimmed(text).last()),
        (forall|k: int| 0 <= k < text.len() ==> is_white(#[trigger] text[k])) ==> trimmed(
            text,
        ).len() == 0,
{
    lemma_front_gone(text);
    let front = trim_front(text);
    lemma_back_gone(front);
    let from = text.len() - front.len();
    let to = from + trimmed(text).len();
    assert(front =~= text.subrange(from, text.len() as int));
    assert(trimmed(text) =~= text.subrange(from, to));
    assert forall|k: int| to <= k < text.len() implies is_white(#[trigger] text[k]) by {
        assert(text[k] == front[k - from]);
    }
    if trimmed(text).len() > 0 {
        assert(trimmed(text)[0] == front[0]);
        if forall|k: int| 0 <= k < text.len() ==> is_white(#[trigger] text[k]) {
            assert(is_white(text[from]));
        }
    }
}

proof fn lemma_front_gone(text: Seq<char>)
    ensures
        trim_front(text).len() <= text.len(),
        trim_front(text) == text.skip(text.len() - trim_front(text).len()),
        forall|k: int|
            0 <= k < text.len() - trim_front(text).len() ==> is_white(#[trigger] text[k]),
        trim_front(text).len() > 0 ==> !is_white(trim_front(text)[0]),
    decreases text.len(),
{
    if text.len() > 0 && is_white(text[0]) {
        let rest = text.drop_first();
        lemma_front_gone(rest);
        assert(rest.skip(rest.len() - trim_front(rest).len()) =~= text.skip(
            text.len() - trim_front(text).len(),
        ));
        assert forall|k: int| 0 <= k < text.len() - trim_front(text).len() implies is_white(
            #[trigger] text[k],
        ) by {
            if k > 0 {
                assert(text[k] == rest[k - 1]);
            }
        }
    } else {
        assert(text.skip(0) =~= text);
    }
}

proof fn lemma_back_gone(text: Seq<char>)
    ensures
        trim_back(text).len() <= text.len(),
        trim_back(text) == text.take(trim_back(text).len() as int),
        forall|k: int| trim_back(text).len() <= k < text.len() ==> is_white(#[trigger] text[k]),
        trim_back(text).len() > 0 ==> !is_white(trim_back(text).last()),
    decreases text.len(),
{
    if text.len() > 0 && is_white(text.last()) {
        let rest = text.drop_last();
        lemma_back_gone(rest);
        assert(rest.take(trim_back(rest).len() as int) =~= text.take(trim_back(text).len() as int));
        assert forall|k: int| trim_back(text).len() <= k < text.len() implies is_white(
            #[trigger] text[k],
        ) by {
            if k < rest.len() {
                assert(text[k] == rest[k]);
            }
        }
    } else {
        assert(text.take(text.len() as int) =~= text);
    }
}

/// Only the ASCII capitals change when a text is made small, and two texts that differ in nothing
/// but the case of such letters become the same.
pub proof fn law_only_capitals_are_made_small(text: Seq<char>, at: int)
    requires
        0 <= at < text.len(),
    ensures
        lowered(text).len() == text.len(),
        !('A' <= text[at] <= 'Z') ==> lowered(text)[at] == text[at],
        'A' <= text[at] <= 'Z' ==> lowered(text)[at] as int == text[at] as int + 32,
        lowered(lowered(text)) == lowered(text),
{
    assert forall|k: int| 0 <= k < text.len() implies lowered(lowered(text))[k] == lowered(
        text,
    )[k] by {
        assert(lowered(text)[k] == ascii_lower(text[k]));
        assert(lowered(lowered(text))[k] == ascii_lower(lowered(text)[k]));
    }
    assert(lowered(lowered(text)) =~= lowered(text));
}

/// Texts put together with a separator are as long as they are, and a separator for each gap.
pub proof fn law_joining_keeps_every_part(parts: Seq<Seq<char>>, separator: Seq<char>, at: int)
    requires
        0 <= at < parts.len(),
    ensures
        ({
            let before = joined(parts.take(at), separator);
            let from = if at == 0 {
                0int
            } else {
                (before.len() + separator.len()) as int
            };
            let all = joined(parts, separator);
            &&& from + parts[at].len() <= all.len()
            &&& all.subrange(from, (from + parts[at].len()) as int) == parts[at]
            &&& at > 0 ==> all.take(before.len() as int) == before && all.subrange(
                before.len() as int,
                (before.len() + separator.len()) as int,
            ) == separator
        }),
    decreases parts.len(),
{
    let all = joined(parts, separator);
    let before = joined(parts.take(at), separator);
    if at == parts.len() - 1 {
        assert(parts.take(at) =~= parts.drop_last());
        if at == 0 {
            assert(all == parts[0]);
            assert(all.subrange(0, parts[0].len() as int) =~= parts[0]);
        } else {
            assert(all == before + separator + parts[at]);
            assert(all.subrange((before.len() + separator.len()) as int, all.len() as int)
                =~= parts[at]);
            assert(all.take(before.len() as int) =~= before);
            assert(all.subrange(before.len() as int, (before.len() + separator.len()) as int)
                =~= separator);
        }
    } else {
        let fewer = parts.drop_last();
        law_joining_keeps_every_part(fewer, separator, at);
        assert(fewer.take(at) =~= parts.take(at));
        let some = joined(fewer, separator);
        assert(all == some + separator + parts.last());
        let from = if at == 0 {
            0int
        } else {
            (before.len() + separator.len()) as int
        };
        assert(all.subrange(from, (from + parts[at].len()) as int) =~= some.subrange(
            from,
            (from + parts[at].len()) as int,
        ));
        if at > 0 {
            assert(all.take(before.len() as int) =~= some.take(before.len() as int));
            assert(all.subrange(before.len() as int, (before.len() + separator.len()) as int)
                =~= some.subrange(before.len() as int, (before.len() + separator.len()) as int));
        }
    }
}

} // verus!
