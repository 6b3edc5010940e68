//! Patterns for model names.
use vstd::prelude::*;

use crate::duplicate::Duplicate;
use crate::text::{chars_of, quoted, quoted_text};

verus! {

// ---------------------------------------------------------------------------------------------
// Regular expressions
// ---------------------------------------------------------------------------------------------

/// `regex::Regex`.
#[verifier::external_type_specification]
#[verifier::external_body]
pub struct ExRegex(regex::Regex);

/// The text that a regular expression was made from, as `regex::Regex::as_str` gives it back.
pub uninterp spec fn regex_source(regex: regex::Regex) -> Seq<char>;

/// Why `regex::Regex::new` turns `source` away, or nothing if it takes it.
pub uninterp spec fn regex_error(source: Seq<char>) -> Option<Seq<char>>;

/// Whether the regular expression made from `source` matches somewhere in `text`, as
/// `regex::Regex::is_match` tells.
pub uninterp spec fn regex_matches(source: Seq<char>, text: Seq<char>) -> bool;

/// `regex::Regex::new`: the regular expression with the given source, or the text of the error.
#[verifier::external_body]
fn new_regex(source: &str) -> (result: Result<regex::Regex, String>)
    ensures
        match result {
            Ok(regex) => regex_error(source@) is None && regex_source(regex) == source@,
            Err(message) => regex_error(source@) == Some(message@),
        },
{
    regex::Regex::new(source).map_err(|err: regex::Error| err.to_string())
}

/// `regex::Regex::is_match`: whether there is a match anywhere in `text`. It depends on what the
/// expression was made from and on the text alone.
#[verifier::external_body]
fn regex_is_match(regex: &regex::Regex, text: &str) -> (result: bool)
    ensures
        result == regex_matches(regex_source(*regex), text@),
{
    regex.is_match(text)
}

/// `Clone` of `regex::Regex` gives an expression with the same source.
#[verifier::external_body]
fn clone_regex(regex: &regex::Regex) -> (copy: regex::Regex)
    ensures
        regex_source(copy) == regex_source(*regex),
{
    regex.clone()
}

/// Whether `c` has a meaning of its own in a regular expression.
pub open spec fn is_meta(c: char) -> bool {
    ||| c == '\\'
    ||| c == '.'
    ||| c == '+'
    ||| c == '*'
    ||| c == '?'
    ||| c == '('
    ||| c == ')'
    ||| c == '|'
    ||| c == '['
    ||| c == ']'
    ||| c == '{'
    ||| c == '}'
    ||| c == '^'
    ||| c == '$'
    ||| c == '#'
    ||| c == '&'
    ||| c == '-'
    ||| c == '~'
}

/// `text` with a backslash in front of each character that has a meaning of its own in a regular
/// expression.
pub open spec fn regex_escaped(text: Seq<char>) -> Seq<char>
    decreases text.len(),
{
    if text.len() == 0 {
        Seq::empty()
    } else if is_meta(text.last()) {
        regex_escaped(text.drop_last()).push('\\').push(text.last())
    } else {
        regex_escaped(text.drop_last()).push(text.last())
    }
}

/// `regex::escape`: the text with a backslash in front of each meta character.
#[verifier::external_body]
fn escape_regex(text: &str) -> (result: String)
    ensures
        result@ == regex_escaped(text@),
{
    regex::escape(text)
}

// ---------------------------------------------------------------------------------------------
// Patterns
// ---------------------------------------------------------------------------------------------

/// Whether a key is a pattern rather than a name.
pub open spec fn is_glob(value: Seq<char>) -> bool {
    exists|i: int|
        0 <= i < value.len() && (#[trigger] value[i] == '*' || value[i] == '?' || value[i] == '[')
}

/// Whether a key is a pattern rather than a name.
pub fn is_glob_pattern(value: &str) -> (result: bool)
    ensures
        result == is_glob(value@),
{
    let chars = chars_of(value);
    for index in 0..chars.len()
        invariant
            chars@ == value@,
            forall|i: int|
                0 <= i < index ==> !(#[trigger] value@[i] == '*' || value@[i] == '?' || value@[i]
                    == '['),
    {
        let c: char = chars[index];
        if c == '*' || c == '?' || c == '[' {
            assert(value@[index as int] == c);
            return true;
        }
    }
    false
}

/// How many characters stand before the first `]` of `text`.
pub open spec fn class_length(text: Seq<char>) -> nat
    decreases text.len(),
{
    if text.len() == 0 || text[0] == ']' {
        0
    } else {
        1 + class_length(text.drop_first())
    }
}

/// The characters of a class, with a backslash in front of those that mean something else there.
pub open spec fn class_members(text: Seq<char>) -> Seq<char>
    decreases text.len(),
{
    if text.len() == 0 {
        Seq::empty()
    } else if text.last() == '\\' || text.last() == '^' {
        class_members(text.drop_last()).push('\\').push(text.last())
    } else {
        class_members(text.drop_last()).push(text.last())
    }
}

/// What stands after the `!` that negates a class.
pub open spec fn after_negation(text: Seq<char>) -> Seq<char> {
    if text.len() > 0 && text[0] == '!' {
        text.drop_first()
    } else {
        text
    }
}

/// What stands after a `]` that is the first member of a class.
pub open spec fn after_bracket(text: Seq<char>) -> Seq<char> {
    if text.len() > 0 && text[0] == ']' {
        text.drop_first()
    } else {
        text
    }
}

/// The class that begins after a `[`, as a regular expression.
pub open spec fn class_regex(text: Seq<char>) -> Seq<char> {
    let inner = after_negation(text);
    let members = after_bracket(inner);
    "["@ + (if inner != text {
        "^"@
    } else {
        Seq::empty()
    }) + (if members != inner {
        "\\]"@
    } else {
        Seq::empty()
    }) + class_members(members.take(class_length(members) as int)) + "]"@
}

/// What stands after the class that begins after a `[`, or nothing if it has no end.
pub open spec fn after_class(text: Seq<char>) -> Option<Seq<char>> {
    let members = after_bracket(after_negation(text));
    if class_length(members) < members.len() {
        Some(members.skip(class_length(members) as int + 1))
    } else {
        None
    }
}

/// `rest` after `head`, where there is a rest.
pub open spec fn prepended(head: Seq<char>, rest: Option<Seq<char>>) -> Option<Seq<char>> {
    match rest {
        Some(rest) => Some(head + rest),
        None => None,
    }
}

/// A pattern as a regular expression: `*` is any run of characters, `?` any one of them, `[...]`
/// one of a class, `[!...]` one that is not of the class, and anything else itself. There is none
/// for a pattern with a class that has no end.
pub open spec fn glob_regex(pattern: Seq<char>) -> Option<Seq<char>>
    decreases pattern.len(),
{
    if pattern.len() == 0 {
        Some(Seq::empty())
    } else {
        let rest = pattern.drop_first();
        if pattern[0] == '*' {
            prepended(".*"@, glob_regex(rest))
        } else if pattern[0] == '?' {
            prepended("."@, glob_regex(rest))
        } else if pattern[0] == '[' {
            match after_class(rest) {
                Some(after) => if after.len() < pattern.len() {
                    prepended(class_regex(rest), glob_regex(after))
                } else {
                    None
                },
                None => None,
            }
        } else {
            prepended(regex_escaped(seq![pattern[0]]), glob_regex(rest))
        }
    }
}

/// The regular expression that a whole name has to match, whatever the case of its letters.
pub open spec fn glob_source(pattern: Seq<char>) -> Option<Seq<char>> {
    match glob_regex(pattern) {
        Some(body) => Some("(?i)^"@ + body + "$"@),
        None => None,
    }
}

/// A pattern, ready for matching.
#[derive(Debug)]
pub struct ModelGlob {
    regex: regex::Regex,
}

impl DeepView for ModelGlob {
    type V = Seq<char>;

    closed spec fn deep_view(&self) -> Seq<char> {
        regex_source(self.regex)
    }
}

impl Duplicate for ModelGlob {
    fn duplicate(&self) -> (copy: Self) {
        ModelGlob { regex: clone_regex(&self.regex) }
    }
}

impl ModelGlob {
    /// Whether the pattern matches `text`.
    pub fn is_match(&self, text: &str) -> (result: bool)
        ensures
            result == regex_matches(self.deep_view(), text@),
    {
        regex_is_match(&self.regex, text)
    }
}

/// The pattern that a key stands for, or why it stands for none.
pub open spec fn compiled_glob(pattern: Seq<char>) -> Result<Seq<char>, Seq<char>> {
    match glob_source(pattern) {
        None => Err("unterminated character class in glob "@ + quoted(pattern)),
        Some(source) => match regex_error(source) {
            Some(message) => Err("invalid glob "@ + quoted(pattern) + ": "@ + message),
            None => Ok(source),
        },
    }
}

proof fn lemma_class_length(text: Seq<char>, length: int)
    requires
        0 <= length <= text.len(),
        forall|k: int| 0 <= k < length ==> text[k] != ']',
        length < text.len() ==> text[length] == ']',
    ensures
        class_length(text) == length,
    decreases text.len(),
{
    if length > 0 {
        lemma_class_length(text.drop_first(), length - 1);
    }
}

/// Translates a class that begins after a `[` at `start`, and returns where it ends.
fn push_class(chars: &Vec<char>, start: usize, regex: &mut String) -> (result: Option<usize>)
    requires
        start <= chars@.len(),
    ensures
        match after_class(chars@.skip(start as int)) {
            Some(after) => {
                &&& result matches Some(end)
                &&& start < end <= chars@.len()
                &&& after == chars@.skip(end as int)
                &&& final(regex)@ == old(regex)@ + class_regex(chars@.skip(start as int))
            },
            None => result is None,
        },
{
    let ghost text = chars@.skip(start as int);
    let mut index: usize = start;
    let mut class = "[".to_string();
    if index < chars.len() && chars[index] == '!' {
        class.push_str("^");
        index = index + 1;
        assert(text[0] == '!');
        assert(text.drop_first() =~= chars@.skip(index as int));
        assert(text.drop_first().len() != text.len());
    } else {
        assert(class@ =~= "["@ + Seq::empty());
    }
    let ghost inner = chars@.skip(index as int);
    assert(inner == after_negation(text));
    let ghost opened = class@;
    if index < chars.len() && chars[index] == ']' {
        class.push_str("\\]");
        index = index + 1;
        assert(inner[0] == ']');
        assert(inner.drop_first() =~= chars@.skip(index as int));
        assert(inner.drop_first().len() != inner.len());
    } else {
        assert(class@ =~= opened + Seq::empty());
    }
    let ghost members = chars@.skip(index as int);
    assert(members == after_bracket(inner));
    let ghost head = class@;
    let first: usize = index;
    assert(members.take(0) =~= Seq::empty());
    assert(head + class_members(members.take(0)) =~= head);
    while index < chars.len() && chars[index] != ']'
        invariant
            first <= index <= chars@.len(),
            members == chars@.skip(first as int),
            forall|k: int| 0 <= k < index - first ==> members[k] != ']',
            class@ == head + class_members(members.take(index - first)),
        decreases chars.len() - index,
    {
        let c: char = chars[index];
        let ghost longer = members.take(index - first + 1);
        proof {
            assert(longer.drop_last() =~= members.take(index - first));
            assert(longer.last() == c);
        }
        if c == '\\' || c == '^' {
            class.push('\\');
        }
        class.push(c);
        assert(class@ =~= head + class_members(longer));
        index = index + 1;
    }
    proof {
        lemma_class_length(members, index - first);
    }
    if index == chars.len() {
        return None;
    }
    class.push_str("]");
    assert(members.skip(index - first + 1) =~= chars@.skip(index + 1));
    regex.push_str(class.as_str());
    Some(index + 1)
}

/// The regular expression for a pattern, unless one of its classes does not end.
pub fn translate_glob(pattern: &str) -> (result: Option<String>)
    ensures
        result.deep_view() == glob_source(pattern@),
{
    let chars = chars_of(pattern);
    let ghost whole = pattern@;
    let mut regex = "(?i)^".to_string();
    let mut index: usize = 0;
    let ghost mut done: Seq<char> = Seq::empty();
    proof {
        assert(whole.skip(0) =~= whole);
        assert(regex@ =~= "(?i)^"@ + done);
        if let Some(body) = glob_regex(whole) {
            assert(done + body =~= body);
        }
    }
    while index < chars.len()
        invariant
            chars@ == whole,
            whole == pattern@,
            index <= whole.len(),
            regex@ == "(?i)^"@ + done,
            glob_regex(whole) == prepended(done, glob_regex(whole.skip(index as int))),
        decreases chars.len() - index,
    {
        let c: char = chars[index];
        let ghost rest = whole.skip(index as int);
        let ghost earlier = done;
        proof {
            assert(rest[0] == c);
            assert(rest.drop_first() =~= whole.skip(index + 1));
        }
        if c == '[' {
            match push_class(&chars, index + 1, &mut regex) {
                None => {
                    return None;
                },
                Some(end) => {
                    proof {
                        let head = class_regex(rest.drop_first());
                        done = earlier + head;
                        assert(regex@ =~= "(?i)^"@ + done);
                        if let Some(body) = glob_regex(whole.skip(end as int)) {
                            assert(earlier + (head + body) =~= done + body);
                        }
                    }
                    index = end;
                },
            }
        } else {
            let ghost head = if c == '*' {
                ".*"@
            } else if c == '?' {
                "."@
            } else {
                regex_escaped(seq![c])
            };
            if c == '*' {
                regex.push_str(".*");
            } else if c == '?' {
                regex.push_str(".");
            } else {
                let mut single = String::new();
                single.push(c);
                assert(single@ =~= seq![c]);
                regex.push_str(escape_regex(single.as_str()).as_str());
            }
            proof {
                done = earlier + head;
                assert(regex@ =~= "(?i)^"@ + done);
                if let Some(body) = glob_regex(whole.skip(index + 1)) {
                    assert(earlier + (head + body) =~= done + body);
                }
            }
            index = index + 1;
        }
    }
    proof {
        assert(whole.skip(index as int) =~= Seq::empty());
        assert(done + Seq::<char>::empty() =~= done);
    }
    regex.push_str("$");
    Some(regex)
}

/// The pattern that a key stands for.
pub fn glob_to_regex(pattern: &str) -> (result: Result<ModelGlob, String>)
    ensures
        match result {
            Ok(glob) => compiled_glob(pattern@) == Ok::<Seq<char>, Seq<char>>(glob.deep_view()),
            Err(message) => compiled_glob(pattern@) == Err::<Seq<char>, Seq<char>>(message@),
        },
{
    let source = match translate_glob(pattern) {
        Some(source) => source,
        None => {
            let mut message = "unterminated character class in glob ".to_string();
            message.push_str(quoted_text(pattern).as_str());
            return Err(message);
        },
    };
    match new_regex(source.as_str()) {
        Ok(regex) => Ok(ModelGlob { regex }),
        Err(err) => {
            let mut message = "invalid glob ".to_string();
            message.push_str(quoted_text(pattern).as_str());
            message.push_str(": ");
            message.push_str(err.as_str());
            Err(message)
        },
    }
}

/// The pattern that a key stands for, or nothing if it is a name.
pub open spec fn key_glob(key: Seq<char>) -> Result<Option<Seq<char>>, Seq<char>> {
    if is_glob(key) {
        match compiled_glob(key) {
            Ok(source) => Ok(Some(source)),
            Err(message) => Err(message),
        }
    } else {
        Ok(None)
    }
}

/// The pattern that a key stands for, or nothing if it is a name.
pub fn compile_model_glob(pattern: &str) -> (result: Result<Option<ModelGlob>, String>)
    ensures
        match result {
            Ok(glob) => key_glob(pattern@) == Ok::<Option<Seq<char>>, Seq<char>>(glob.deep_view()),
            Err(message) => key_glob(pattern@) == Err::<Option<Seq<char>>, Seq<char>>(message@),
        },
{
    if is_glob_pattern(pattern) {
        match glob_to_regex(pattern) {
            Ok(glob) => Ok(Some(glob)),
            Err(message) => Err(message),
        }
    } else {
        Ok(None)
    }
}

// ---------------------------------------------------------------------------------------------
// Laws
// ---------------------------------------------------------------------------------------------

/// Whether no character of `text` means anything but itself, in a pattern or in a regular expression.
pub open spec fn is_literal(text: Seq<char>) -> bool {
    forall|k: int| 0 <= k < text.len() ==> !is_meta(#[trigger] text[k])
}

/// Letters stand for themselves wherever they stand in a pattern.
pub proof fn law_letters_stand_for_themselves(text: Seq<char>, rest: Seq<char>)
    requires
        is_literal(text),
    ensures
        glob_regex(text + rest) == prepended(text, glob_regex(rest)),
    decreases text.len(),
{
    if text.len() == 0 {
        assert(text + rest =~= rest);
        if let Some(after) = glob_regex(rest) {
            assert(text + after =~= after);
        }
    } else {
        let tail = text.drop_first();
        assert forall|k: int| 0 <= k < tail.len() implies !is_meta(#[trigger] tail[k]) by {
            assert(tail[k] == text[k + 1]);
        }
        law_letters_stand_for_themselves(tail, rest);
        let all = text + rest;
        assert(all[0] == text[0]);
        assert(!is_meta(text[0]));
        assert(all.drop_first() =~= tail + rest);
        let first = seq![text[0]];
        assert(first.drop_last() =~= Seq::empty());
        assert(regex_escaped(first.drop_last()) =~= Seq::empty());
        assert(regex_escaped(first) =~= first);
        if let Some(after) = glob_regex(rest) {
            assert(first + (tail + after) =~= text + after);
        }
    }
}

/// A star stands for any run of characters and a question mark for any one, and any other mark
/// stands for itself behind a backslash.
pub proof fn law_wildcards_stand_for_characters(mark: char, rest: Seq<char>)
    ensures
        glob_regex(seq!['*'] + rest) == prepended(seq!['.', '*'], glob_regex(rest)),
        glob_regex(seq!['?'] + rest) == prepended(seq!['.'], glob_regex(rest)),
        is_meta(mark) && mark != '*' && mark != '?' && mark != '[' ==> glob_regex(
            seq![mark] + rest,
        ) == prepended(seq!['\\', mark], glob_regex(rest)),
        glob_regex(Seq::empty()) == Some(Seq::<char>::empty()),
{
    reveal_strlit(".*");
    reveal_strlit(".");
    assert(".*"@ =~= seq!['.', '*']);
    assert("."@ =~= seq!['.']);
    assert((seq!['*'] + rest).drop_first() =~= rest);
    assert((seq!['?'] + rest).drop_first() =~= rest);
    assert((seq![mark] + rest).drop_first() =~= rest);
    let one = seq![mark];
    assert(one.drop_last() =~= Seq::empty());
    assert(regex_escaped(one.drop_last()) =~= Seq::empty());
    if is_meta(mark) {
        assert(regex_escaped(one) =~= seq!['\\', mark]);
    }
}

/// A class of letters stands for any one of them, and behind an exclamation mark for any other.
pub proof fn law_classes_stand_for_their_members(members: Seq<char>, rest: Seq<char>)
    requires
        is_literal(members),
        members.len() > 0,
        members[0] != '!',
    ensures
        glob_regex(seq!['['] + members + seq![']'] + rest) == prepended(
            seq!['['] + members + seq![']'],
            glob_regex(rest),
        ),
        glob_regex(seq!['[', '!'] + members + seq![']'] + rest) == prepended(
            seq!['[', '^'] + members + seq![']'],
            glob_regex(rest),
        ),
{
    reveal_strlit("[");
    reveal_strlit("]");
    reveal_strlit("^");
    let inner = members + seq![']'] + rest;
    let plain = seq!['['] + members + seq![']'] + rest;
    let negated = seq!['[', '!'] + members + seq![']'] + rest;
    assert(inner[0] == members[0]);
    assert(!is_meta(members[0]));
    assert(plain.drop_first() =~= inner);
    assert(negated.drop_first() =~= seq!['!'] + inner);
    assert((seq!['!'] + inner).drop_first() =~= inner);
    assert((seq!['!'] + inner)[0] == '!');
    assert((seq!['!'] + inner).len() != inner.len());
    lemma_class_end(members, rest);
    assert(inner.take(members.len() as int) =~= members);
    assert(inner.skip(members.len() as int + 1) =~= rest);
    lemma_members_stay(members);
    assert("["@ =~= seq!['[']);
    assert("]"@ =~= seq![']']);
    assert("^"@ =~= seq!['^']);
    assert(class_regex(inner) =~= seq!['['] + members + seq![']']);
    assert(class_regex(seq!['!'] + inner) =~= seq!['[', '^'] + members + seq![']']);
}

proof fn lemma_class_end(members: Seq<char>, rest: Seq<char>)
    requires
        is_literal(members),
    ensures
        class_length(members + seq![']'] + rest) == members.len(),
    decreases members.len(),
{
    let all = members + seq![']'] + rest;
    if members.len() > 0 {
        let tail = members.drop_first();
        assert forall|k: int| 0 <= k < tail.len() implies !is_meta(#[trigger] tail[k]) by {
            assert(tail[k] == members[k + 1]);
        }
        lemma_class_end(tail, rest);
        assert(all[0] == members[0]);
        assert(!is_meta(members[0]));
        assert(all.drop_first() =~= tail + seq![']'] + rest);
    } else {
        assert(all[0] == ']');
    }
}

proof fn lemma_members_stay(members: Seq<char>)
    requires
        is_literal(members),
    ensures
        class_members(members) == members,
    decreases members.len(),
{
    if members.len() > 0 {
        let shorter = members.drop_last();
        assert forall|k: int| 0 <= k < shorter.len() implies !is_meta(#[trigger] shorter[k]) by {
            assert(shorter[k] == members[k]);
        }
        lemma_members_stay(shorter);
        assert(!is_meta(members[members.len() - 1]));
        assert(shorter.push(members.last()) =~= members);
    }
}

/// A pattern is for whole names, whatever the case of their letters.
pub proof fn law_patterns_are_for_whole_names(pattern: Seq<char>)
    ensures
        glob_source(pattern) is Some <==> glob_regex(pattern) is Some,
        glob_source(pattern) matches Some(source) ==> {
            &&& "(?i)^"@.is_prefix_of(source)
            &&& source.last() == '$'
            &&& source.subrange(5, source.len() - 1) == glob_regex(pattern)->0
        },
{
    reveal_strlit("(?i)^");
    reveal_strlit("$");
    if let Some(source) = glob_source(pattern) {
        assert(source.subrange(5, source.len() - 1) =~= glob_regex(pattern)->0);
    }
}

} // verus!
