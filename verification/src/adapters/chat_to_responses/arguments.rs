//! The JSON payload of a tool call whose arguments may carry stray text around it.
use vstd::prelude::*;

use crate::text::{chars_of, lemma_trimmed_idempotent, lemma_trimmed_is_piece, trimmed};

verus! {

/// Where a scan over JSON text stands.
pub struct Scan {
    /// How many brackets of the outermost kind are open.
    pub depth: nat,
    /// Whether the scan is inside a string literal.
    pub in_string: bool,
    /// Whether the last character inside a string literal was an escaping backslash.
    pub escaped: bool,
}

impl Scan {
    /// The scan after one more character.
    pub open spec fn after(self, c: char, open: char, close: char) -> Scan {
        if self.in_string {
            Scan {
                in_string: self.escaped || c != '"',
                escaped: !self.escaped && c == '\\',
                ..self
            }
        } else if c == '"' {
            Scan { in_string: true, ..self }
        } else if c == open {
            Scan { depth: self.depth + 1, ..self }
        } else if c == close {
            Scan { depth: (self.depth - 1) as nat, ..self }
        } else {
            self
        }
    }
}

/// The scan over the first `count` characters of `text`.
pub open spec fn scanned(text: Seq<char>, count: int, open: char, close: char) -> Scan
    decreases count,
{
    if count <= 0 {
        Scan { depth: 0, in_string: false, escaped: false }
    } else {
        scanned(text, count - 1, open, close).after(text[count - 1], open, close)
    }
}

/// Whether the first `count` characters of `text` are a bracketed value: every bracket that they
/// open is closed, for the first time by the last of them.
pub open spec fn closes_at(text: Seq<char>, count: int, open: char, close: char) -> bool {
    &&& 1 <= count <= text.len()
    &&& !scanned(text, count, open, close).in_string
    &&& scanned(text, count, open, close).depth == 0
    &&& forall|k: int| 1 <= k < count ==> (#[trigger] scanned(text, k, open, close)).depth > 0
}

/// Whether `c` opens an object or an array.
pub open spec fn is_opening(c: char) -> bool {
    c == '{' || c == '['
}

/// The bracket that closes what `open` opened.
pub open spec fn closing(open: char) -> char {
    if open == '{' {
        '}'
    } else {
        ']'
    }
}

/// Whether an object or an array begins at `start` and is closed further on.
pub open spec fn value_begins(text: Seq<char>, start: int) -> bool {
    &&& 0 <= start < text.len()
    &&& is_opening(text[start])
    &&& exists|count: int| #[trigger]
        closes_at(
            text.subrange(start, text.len() as int),
            count,
            text[start],
            closing(text[start]),
        )
}

/// Whether `start` is the first place in `text` where an object or an array begins that is closed
/// further on.
pub open spec fn opens_at(text: Seq<char>, start: int) -> bool {
    &&& value_begins(text, start)
    &&& forall|k: int| 0 <= k < start ==> !#[trigger] value_begins(text, k)
}

/// Whether `payload` is the first balanced object or array in `raw`, from its opening bracket to
/// the bracket that closes it.
pub open spec fn is_first_value(raw: Seq<char>, payload: Seq<char>) -> bool {
    exists|start: int, count: int|
        #![trigger opens_at(raw, start), raw.subrange(start, start + count)]
        {
            &&& opens_at(raw, start)
            &&& closes_at(
                raw.subrange(start, raw.len() as int),
                count,
                raw[start],
                closing(raw[start]),
            )
            &&& payload == raw.subrange(start, start + count)
        }
}

/// The payload of `raw`: its first balanced object or array, or the trimmed text where it has none.
pub open spec fn argument_payload(raw: Seq<char>) -> Seq<char> {
    if exists|payload: Seq<char>| is_first_value(raw, payload) {
        choose|payload: Seq<char>| is_first_value(raw, payload)
    } else {
        trimmed(raw)
    }
}

/// A value is closed at one place only.
proof fn lemma_closes_once(text: Seq<char>, one: int, other: int, open: char, close: char)
    requires
        closes_at(text, one, open, close),
        closes_at(text, other, open, close),
    ensures
        one == other,
{
    if one < other {
        assert(scanned(text, one, open, close).depth > 0);
    }
    if other < one {
        assert(scanned(text, other, open, close).depth > 0);
    }
}

/// A text has at most one first value.
pub proof fn law_first_value_is_unique(raw: Seq<char>, one: Seq<char>, other: Seq<char>)
    requires
        is_first_value(raw, one),
        is_first_value(raw, other),
    ensures
        one == other,
{
    let (s1, c1) = choose|start: int, count: int|
        #![trigger opens_at(raw, start), raw.subrange(start, start + count)]
        {
            &&& opens_at(raw, start)
            &&& closes_at(raw.subrange(start, raw.len() as int), count, raw[start], closing(raw[start]))
            &&& one == raw.subrange(start, start + count)
        };
    let (s2, c2) = choose|start: int, count: int|
        #![trigger opens_at(raw, start), raw.subrange(start, start + count)]
        {
            &&& opens_at(raw, start)
            &&& closes_at(raw.subrange(start, raw.len() as int), count, raw[start], closing(raw[start]))
            &&& other == raw.subrange(start, start + count)
        };
    assert(s1 == s2) by {
        if s1 < s2 {
            assert(!value_begins(raw, s1));
        }
        if s2 < s1 {
            assert(!value_begins(raw, s2));
        }
    }
    lemma_closes_once(
        raw.subrange(s1, raw.len() as int),
        c1,
        c2,
        raw[s1],
        closing(raw[s1]),
    );
}

/// The first value of a text is its payload.
proof fn lemma_payload_is(raw: Seq<char>, start: int, count: int)
    requires
        opens_at(raw, start),
        closes_at(
            raw.subrange(start, raw.len() as int),
            count,
            raw[start],
            closing(raw[start]),
        ),
    ensures
        argument_payload(raw) == raw.subrange(start, start + count),
{
    let payload = raw.subrange(start, start + count);
    assert(is_first_value(raw, payload));
    law_first_value_is_unique(raw, argument_payload(raw), payload);
}

/// A text in which nothing that opens is closed has no value.
proof fn lemma_no_value(raw: Seq<char>)
    requires
        forall|k: int| 0 <= k < raw.len() ==> !#[trigger] value_begins(raw, k),
    ensures
        argument_payload(raw) == trimmed(raw),
{
    assert forall|payload: Seq<char>| !is_first_value(raw, payload) by {
        if is_first_value(raw, payload) {
            let (s, c) = choose|s: int, c: int|
                #![trigger opens_at(raw, s), raw.subrange(s, s + c)]
                opens_at(raw, s) && closes_at(
                    raw.subrange(s, raw.len() as int),
                    c,
                    raw[s],
                    closing(raw[s]),
                ) && payload == raw.subrange(s, s + c);
            assert(!value_begins(raw, s));
        }
    }
}

/// Two texts that agree on their first `count` characters are scanned alike that far.
proof fn lemma_scanned_alike(one: Seq<char>, other: Seq<char>, count: int, open: char, close: char)
    requires
        count <= one.len(),
        count <= other.len(),
        forall|k: int| 0 <= k < count ==> one[k] == other[k],
    ensures
        scanned(one, count, open, close) == scanned(other, count, open, close),
    decreases count,
{
    if count > 0 {
        lemma_scanned_alike(one, other, count - 1, open, close);
    }
}

/// Where a value is closed depends on nothing behind it.
proof fn lemma_closes_alike(one: Seq<char>, other: Seq<char>, count: int, open: char, close: char)
    requires
        closes_at(one, count, open, close),
        count <= other.len(),
        forall|k: int| 0 <= k < count ==> one[k] == other[k],
    ensures
        closes_at(other, count, open, close),
{
    lemma_scanned_alike(one, other, count, open, close);
    assert forall|k: int| 1 <= k < count implies (#[trigger] scanned(other, k, open, close)).depth
        > 0 by {
        lemma_scanned_alike(one, other, k, open, close);
        assert(scanned(one, k, open, close).depth > 0);
    }
}

/// A value that begins in a piece of a text begins at the same place of the whole text.
proof fn lemma_value_in_piece(raw: Seq<char>, from: int, to: int, start: int)
    requires
        0 <= from <= to <= raw.len(),
        value_begins(raw.subrange(from, to), start),
    ensures
        value_begins(raw, from + start),
{
    let piece = raw.subrange(from, to);
    let (open, close) = (piece[start], closing(piece[start]));
    let inner = piece.subrange(start, piece.len() as int);
    let outer = raw.subrange(from + start, raw.len() as int);
    let count = choose|count: int| #[trigger] closes_at(inner, count, open, close);
    assert forall|k: int| 0 <= k < count implies inner[k] == outer[k] by {}
    lemma_closes_alike(inner, outer, count, open, close);
}

/// A value that is closed within a piece of a text begins in the piece too.
proof fn lemma_value_of_whole(raw: Seq<char>, start: int, count: int)
    requires
        0 <= start < raw.len(),
        is_opening(raw[start]),
        closes_at(
            raw.subrange(start, raw.len() as int),
            count,
            raw[start],
            closing(raw[start]),
        ),
    ensures
        opens_at(raw.subrange(start, start + count), 0),
        closes_at(
            raw.subrange(start, start + count).subrange(0, count),
            count,
            raw[start],
            closing(raw[start]),
        ),
{
    let outer = raw.subrange(start, raw.len() as int);
    let piece = raw.subrange(start, start + count);
    let inner = piece.subrange(0, count);
    assert forall|k: int| 0 <= k < count implies outer[k] == inner[k] by {}
    lemma_closes_alike(outer, inner, count, raw[start], closing(raw[start]));
    assert(piece[0] == raw[start]);
    assert(piece.len() == count);
    assert(value_begins(piece, 0));
}

/// A text that begins with a bracketed value keeps that value as its payload, whatever follows.
pub proof fn law_payload_ignores_what_follows(value: Seq<char>, suffix: Seq<char>)
    requires
        value.len() > 0,
        is_opening(value[0]),
        closes_at(value, value.len() as int, value[0], closing(value[0])),
    ensures
        argument_payload(value + suffix) == value,
{
    let raw = value + suffix;
    let count = value.len() as int;
    let rest = raw.subrange(0, raw.len() as int);
    assert(rest =~= raw);
    lemma_closes_alike(value, rest, count, value[0], closing(value[0]));
    assert(raw[0] == value[0]);
    assert(closes_at(rest, count, raw[0], closing(raw[0])));
    assert(value_begins(raw, 0));
    assert(raw.subrange(0, 0 + count) =~= value);
    lemma_payload_is(raw, 0, count);
}

/// Text in front of a value does not matter either, whatever brackets it leaves open, as long as no
/// value begins in it.
pub proof fn law_payload_ignores_what_precedes(raw: Seq<char>, start: int, count: int)
    requires
        0 <= start < raw.len(),
        is_opening(raw[start]),
        closes_at(
            raw.subrange(start, raw.len() as int),
            count,
            raw[start],
            closing(raw[start]),
        ),
        forall|k: int| 0 <= k < start ==> !#[trigger] value_begins(raw, k),
    ensures
        argument_payload(raw) == raw.subrange(start, start + count),
{
    assert(value_begins(raw, start));
    lemma_payload_is(raw, start, count);
}

/// The payload is a piece of the text: all of it without whitespace at the ends, or a value from
/// its opening bracket to the bracket that closes it. Without brackets it is the former. Taking the
/// payload of a payload changes nothing.
pub proof fn law_payload_is_a_settled_piece(raw: Seq<char>)
    ensures
        ({
            let payload = argument_payload(raw);
            &&& argument_payload(payload) == payload
            &&& exists|from: int, to: int|
                0 <= from <= to <= raw.len() && payload == #[trigger] raw.subrange(from, to)
            &&& payload == trimmed(raw) || (payload.len() >= 2 && is_opening(payload[0])
                && payload.last() == closing(payload[0]))
            &&& (forall|k: int| 0 <= k < raw.len() ==> !is_opening(#[trigger] raw[k]))
                ==> payload == trimmed(raw)
        }),
{
    let payload = argument_payload(raw);
    if exists|value: Seq<char>| is_first_value(raw, value) {
        let (start, count) = choose|start: int, count: int|
            #![trigger opens_at(raw, start), raw.subrange(start, start + count)]
            {
                &&& opens_at(raw, start)
                &&& closes_at(
                    raw.subrange(start, raw.len() as int),
                    count,
                    raw[start],
                    closing(raw[start]),
                )
                &&& payload == raw.subrange(start, start + count)
            };
        let (open, close) = (raw[start], closing(raw[start]));
        let rest = raw.subrange(start, raw.len() as int);
        lemma_value_of_whole(raw, start, count);
        lemma_payload_is(payload, 0, count);
        assert(payload.subrange(0, 0 + count) =~= payload);
        assert(scanned(rest, 0, open, close) == Scan {
            depth: 0,
            in_string: false,
            escaped: false,
        });
        assert(rest[0] == open);
        assert(scanned(rest, 1, open, close).depth == 1);
        assert(count >= 2);
        assert(scanned(rest, count - 1, open, close).depth > 0);
        assert(rest[count - 1] == close);
        assert(payload.last() == rest[count - 1]);
    } else {
        lemma_trimmed_is_piece(raw);
        let (from, to) = choose|from: int, to: int|
            0 <= from <= to <= raw.len() && trimmed(raw) == #[trigger] raw.subrange(from, to);
        assert forall|k: int| 0 <= k < payload.len() implies !#[trigger] value_begins(
            payload,
            k,
        ) by {
            if value_begins(payload, k) {
                lemma_value_in_piece(raw, from, to, k);
                lemma_some_first_value(raw, from + k);
            }
        }
        lemma_no_value(payload);
        lemma_trimmed_idempotent(raw);
    }
}

/// Where a value begins there is a first one.
proof fn lemma_some_first_value(raw: Seq<char>, start: int)
    requires
        value_begins(raw, start),
    ensures
        exists|payload: Seq<char>| is_first_value(raw, payload),
    decreases start,
{
    if exists|k: int| 0 <= k < start && #[trigger] value_begins(raw, k) {
        let k = choose|k: int| 0 <= k < start && #[trigger] value_begins(raw, k);
        lemma_some_first_value(raw, k);
    } else {
        let count = choose|count: int| #[trigger]
            closes_at(
                raw.subrange(start, raw.len() as int),
                count,
                raw[start],
                closing(raw[start]),
            );
        assert(opens_at(raw, start));
        assert(is_first_value(raw, raw.subrange(start, start + count)));
    }
}

/// The place behind the value that begins at `start`, or nothing if it is not closed.
fn value_end(chars: &Vec<char>, start: usize) -> (result: Option<usize>)
    requires
        start < chars@.len(),
        is_opening(chars@[start as int]),
    ensures
        match result {
            Some(end) => start < end <= chars@.len() && closes_at(
                chars@.subrange(start as int, chars@.len() as int),
                end - start,
                chars@[start as int],
                closing(chars@[start as int]),
            ),
            None => !value_begins(chars@, start as int),
        },
{
    let ghost text = chars@;
    let open: char = chars[start];
    let close: char = if open == '{' {
        '}'
    } else {
        ']'
    };
    let ghost rest = text.subrange(start as int, text.len() as int);
    let mut depth: usize = 0;
    let mut in_string = false;
    let mut escaped = false;
    let mut index: usize = start;
    while index < chars.len()
        invariant
            chars@ == text,
            start <= index <= text.len(),
            start < text.len(),
            is_opening(open),
            open == text[start as int],
            close == closing(open),
            rest == text.subrange(start as int, text.len() as int),
            depth <= index - start,
            scanned(rest, index - start, open, close) == (Scan {
                depth: depth as nat,
                in_string,
                escaped,
            }),
            index > start ==> depth > 0,
            forall|k: int|
                1 <= k <= index - start ==> (#[trigger] scanned(rest, k, open, close)).depth > 0,
        decreases chars.len() - index,
    {
        let c: char = chars[index];
        assert(rest[index - start] == c);
        let ghost next = scanned(rest, index - start + 1, open, close);
        if in_string {
            if escaped {
                escaped = false;
            } else if c == '\\' {
                escaped = true;
            } else if c == '"' {
                in_string = false;
            }
        } else if c == '"' {
            in_string = true;
        } else if c == open {
            depth = depth + 1;
        } else if c == close {
            depth = depth - 1;
            if depth == 0 {
                assert(next == Scan { depth: 0, in_string, escaped });
                assert(closes_at(rest, index - start + 1, open, close));
                return Some(index + 1);
            }
        }
        assert(next == Scan { depth: depth as nat, in_string, escaped });
        index = index + 1;
    }
    proof {
        if value_begins(text, start as int) {
            let count = choose|count: int| #[trigger] closes_at(rest, count, open, close);
            assert(scanned(rest, count, open, close).depth > 0);
        }
    }
    None
}

/// The first balanced object or array in `raw`. Brackets inside string literals do not count. A
/// text without one comes back trimmed.
pub fn extract_json_arguments(raw: &str) -> (result: &str)
    ensures
        result@ == argument_payload(raw@),
{
    let chars = chars_of(raw);
    let ghost text = raw@;
    for start in 0..chars.len()
        invariant
            chars@ == text,
            text == raw@,
            forall|k: int| 0 <= k < start ==> !#[trigger] value_begins(text, k),
    {
        if chars[start] == '{' || chars[start] == '[' {
            if let Some(end) = value_end(&chars, start) {
                proof {
                    assert(value_begins(text, start as int));
                    lemma_payload_is(text, start as int, end - start);
                }
                return raw.substring_char(start, end);
            }
        }
    }
    proof {
        lemma_no_value(text);
    }
    raw.trim()
}

} // verus!
