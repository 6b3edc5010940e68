//! What holds of a prompt that injected lines have been taken out of.
use vstd::prelude::*;

use crate::text::{joined, lines};

use super::prompt::{kept_lines, without_lines, InjectedLine};

verus! {

// ---------------------------------------------------------------------------------------------
// Lines
// ---------------------------------------------------------------------------------------------

/// Each of `parts` with a line feed behind it.
spec fn ended(parts: Seq<Seq<char>>) -> Seq<char>
    decreases parts.len(),
{
    if parts.len() == 0 {
        Seq::empty()
    } else {
        parts[0].push('\n') + ended(parts.skip(1))
    }
}

/// Whether a line holds no mark that ends one.
spec fn is_plain(line: Seq<char>) -> bool {
    !line.contains('\n') && !line.contains('\r')
}

/// Whether none of `parts` holds a mark that ends a line.
spec fn all_plain(parts: Seq<Seq<char>>) -> bool {
    forall|i: int| 0 <= i < parts.len() ==> is_plain(#[trigger] parts[i])
}

proof fn lemma_ended_push(parts: Seq<Seq<char>>, last: Seq<char>)
    ensures
        ended(parts.push(last)) == ended(parts) + last.push('\n'),
    decreases parts.len(),
{
    let all = parts.push(last);
    if parts.len() == 0 {
        assert(all.skip(1) =~= Seq::empty());
        assert(ended(all) =~= ended(parts) + last.push('\n')) by {
            reveal_with_fuel(ended, 2);
        }
    } else {
        lemma_ended_push(parts.skip(1), last);
        assert(all.skip(1) =~= parts.skip(1).push(last));
        assert(all[0] == parts[0]);
        assert(ended(all) =~= ended(parts) + last.push('\n'));
    }
}

/// Lines joined by line feeds are lines that each have one behind them, but for the last.
proof fn lemma_joined_is_ended(parts: Seq<Seq<char>>)
    requires
        parts.len() > 0,
    ensures
        joined(parts, "\n"@) == ended(parts.drop_last()) + parts.last(),
        joined(parts, "\n"@).push('\n') == ended(parts),
    decreases parts.len(),
{
    reveal_strlit("\n");
    let before = parts.drop_last();
    assert(parts =~= before.push(parts.last()));
    lemma_ended_push(before, parts.last());
    if parts.len() == 1 {
        assert(before =~= Seq::empty());
        assert(joined(parts, "\n"@) =~= ended(before) + parts.last());
    } else {
        lemma_joined_is_ended(before);
        assert(joined(parts, "\n"@) =~= ended(before) + parts.last());
    }
    assert(joined(parts, "\n"@).push('\n') =~= ended(parts));
}

/// Taking a text apart undoes putting plain lines together.
proof fn lemma_lines_of_ended(parts: Seq<Seq<char>>, tail: Seq<char>)
    requires
        all_plain(parts),
        is_plain(tail),
    ensures
        lines(ended(parts) + tail) == (if tail.len() > 0 {
            parts.push(tail)
        } else {
            parts
        }),
    decreases parts.len(),
{
    let text = ended(parts) + tail;
    if parts.len() == 0 {
        assert(text =~= tail);
        assert(lines(text) =~= (if tail.len() > 0 {
            parts.push(tail)
        } else {
            parts
        }));
    } else {
        let first = parts[0];
        let rest = parts.skip(1);
        let end = first.len() as int;
        assert(text =~= first.push('\n') + (ended(rest) + tail));
        assert(text[end] == '\n');
        assert forall|i: int| 0 <= i < end implies text[i] != '\n' by {
            assert(text[i] == first[i]);
            assert(first.contains(first[i]));
        }
        lemma_first_place(text, end);
        assert(text.take(end) =~= first);
        assert(text.skip(end + 1) =~= ended(rest) + tail);
        assert(first.len() > 0 ==> first.contains(first.last()));
        assert forall|i: int| 0 <= i < rest.len() implies is_plain(#[trigger] rest[i]) by {
            assert(rest[i] == parts[i + 1]);
        }
        lemma_lines_of_ended(rest, tail);
        assert(seq![first] + rest =~= parts);
        assert(lines(text) =~= (if tail.len() > 0 {
            parts.push(tail)
        } else {
            parts
        }));
    }
}

proof fn lemma_first_place(text: Seq<char>, end: int)
    requires
        0 <= end < text.len(),
        text[end] == '\n',
        forall|i: int| 0 <= i < end ==> text[i] != '\n',
    ensures
        text.contains('\n'),
        text.index_of_first('\n') == Some(end),
{
    text.index_of_first_ensures('\n');
}

/// Putting the lines of a text together undoes taking it apart.
proof fn lemma_text_of_lines(text: Seq<char>)
    requires
        !text.contains('\r'),
    ensures
        all_plain(lines(text)),
        text.len() == 0 ==> lines(text).len() == 0,
        text.len() > 0 ==> lines(text).len() > 0,
        text.len() > 0 && text.last() == '\n' ==> text == ended(lines(text)),
        text.len() > 0 && text.last() != '\n' ==> text == ended(lines(text).drop_last())
            + lines(text).last() && lines(text).last().len() > 0,
    decreases text.len(),
{
    let listed = lines(text);
    if text.len() > 0 {
        text.index_of_first_ensures('\n');
        if text.contains('\n') {
            let end = text.index_of_first('\n')->0;
            let first = text.take(end);
            let rest = text.skip(end + 1);
            assert forall|c: char| #[trigger] rest.contains(c) implies text.contains(c) by {
                let i = choose|i: int| 0 <= i < rest.len() && rest[i] == c;
                assert(text[end + 1 + i] == c);
            }
            assert forall|c: char| #[trigger] first.contains(c) implies text.contains(c) && c
                != '\n' by {
                let i = choose|i: int| 0 <= i < first.len() && first[i] == c;
                assert(text[i] == c);
            }
            assert(first.len() > 0 ==> first.contains(first.last()));
            lemma_text_of_lines(rest);
            assert(listed =~= seq![first] + lines(rest));
            assert(listed.skip(1) =~= lines(rest));
            assert(listed[0] == first);
            assert forall|i: int| 0 <= i < listed.len() implies is_plain(#[trigger] listed[i]) by {
                if i > 0 {
                    assert(listed[i] == lines(rest)[i - 1]);
                }
            }
            assert(text =~= first.push('\n') + rest);
            if rest.len() == 0 {
                assert(lines(rest) =~= Seq::empty());
                assert(text =~= ended(listed)) by {
                    reveal_with_fuel(ended, 2);
                }
            } else {
                assert(text.last() == rest.last());
                if text.last() == '\n' {
                    assert(text =~= ended(listed));
                } else {
                    let inner = listed.drop_last();
                    assert(inner[0] == first);
                    assert(inner.skip(1) =~= lines(rest).drop_last());
                    assert(listed.last() == lines(rest).last());
                    assert(text =~= ended(inner) + listed.last());
                }
            }
        } else {
            assert(listed =~= seq![text]);
            assert(listed.drop_last() =~= Seq::empty());
            assert(text.last() != '\n') by {
                assert(text.contains(text.last()));
            }
            assert(text =~= ended(listed.drop_last()) + listed.last());
        }
    }
}

// ---------------------------------------------------------------------------------------------
// Kept lines
// ---------------------------------------------------------------------------------------------

proof fn lemma_kept_push(listed: Seq<Seq<char>>, line: Seq<char>, kind: InjectedLine)
    ensures
        kept_lines(listed.push(line), kind) == (if kind.is(line) {
            kept_lines(listed, kind)
        } else {
            kept_lines(listed, kind).push(line)
        }),
{
    reveal(Seq::filter);
    assert(listed.push(line).drop_last() =~= listed);
}

proof fn lemma_kept_lines(listed: Seq<Seq<char>>, kind: InjectedLine)
    ensures
        forall|i: int|
            0 <= i < kept_lines(listed, kind).len() ==> !kind.is(
                #[trigger] kept_lines(listed, kind)[i],
            ),
        all_plain(listed) ==> all_plain(kept_lines(listed, kind)),
        (forall|i: int| 0 <= i < listed.len() ==> !kind.is(#[trigger] listed[i])) ==> kept_lines(
            listed,
            kind,
        ) == listed,
        (forall|i: int| 0 <= i < listed.len() ==> kind.is(#[trigger] listed[i])) ==> kept_lines(
            listed,
            kind,
        ).len() == 0,
    decreases listed.len(),
{
    reveal(Seq::filter);
    if listed.len() > 0 {
        let before = listed.drop_last();
        let last = listed.last();
        assert(listed =~= before.push(last));
        assert(listed[listed.len() - 1] == last);
        assert forall|i: int| 0 <= i < before.len() implies #[trigger] before[i] == listed[i] by {}
        lemma_kept_lines(before, kind);
        lemma_kept_push(before, last, kind);
    } else {
        assert(kept_lines(listed, kind) =~= listed);
    }
}

/// The lines of `listed` that are not empty.
pub open spec fn filled_lines(listed: Seq<Seq<char>>) -> Seq<Seq<char>> {
    listed.filter(|line: Seq<char>| line.len() > 0)
}

proof fn lemma_filled_without_last(listed: Seq<Seq<char>>)
    requires
        listed.len() > 0,
        listed.last().len() == 0,
    ensures
        filled_lines(listed.drop_last()) == filled_lines(listed),
{
    reveal(Seq::filter);
}

/// The lines of what is left are the lines that were kept, but for an empty one at the end of a
/// text that does not end with a line feed.
proof fn lemma_lines_left(text: Seq<char>, kind: InjectedLine)
    requires
        !text.contains('\r'),
    ensures
        ({
            let left = without_lines(text, kind);
            let kept = kept_lines(lines(text), kind);
            ||| lines(left) == kept && (kept.len() > 0 ==> left.last() == text.last() || (
            left.len() > 0 && text.last() != '\n' && left.last() != '\n'))
            ||| kept.len() > 0 && kept.last().len() == 0 && text.last() != '\n' && lines(left)
                == kept.drop_last() && (kept.len() > 1 ==> left.len() > 0 && left.last() == '\n')
        }),
        !without_lines(text, kind).contains('\r'),
{
    let left = without_lines(text, kind);
    let kept = kept_lines(lines(text), kind);
    lemma_text_of_lines(text);
    lemma_kept_lines(lines(text), kind);
    if kept.len() == 0 {
        assert(lines(left) =~= kept);
    } else {
        let inner = kept.drop_last();
        let tail = kept.last();
        lemma_joined_is_ended(kept);
        assert(tail == kept[kept.len() - 1]);
        assert forall|i: int| 0 <= i < inner.len() implies is_plain(#[trigger] inner[i]) by {
            assert(inner[i] == kept[i]);
        }
        assert(kept =~= inner.push(tail));
        lemma_no_return(kept, Seq::empty());
        lemma_no_return(inner, tail);
        if text.last() == '\n' {
            lemma_lines_of_ended(kept, Seq::empty());
            assert(ended(kept) + Seq::empty() =~= left);
            assert(left.last() == '\n');
        } else {
            lemma_lines_of_ended(inner, tail);
            assert(left == ended(inner) + tail);
            if tail.len() > 0 {
                assert(left.last() == tail.last());
                assert(tail.contains(tail.last()));
            } else if kept.len() > 1 {
                let first = inner.drop_last();
                assert(inner =~= first.push(inner.last()));
                lemma_ended_push(first, inner.last());
                assert(left.last() == '\n');
            }
        }
    }
}

proof fn lemma_no_return(parts: Seq<Seq<char>>, tail: Seq<char>)
    requires
        all_plain(parts),
        is_plain(tail),
    ensures
        !(ended(parts) + tail).contains('\r'),
    decreases parts.len(),
{
    let text = ended(parts) + tail;
    if parts.len() > 0 {
        let rest = parts.skip(1);
        assert forall|i: int| 0 <= i < rest.len() implies is_plain(#[trigger] rest[i]) by {
            assert(rest[i] == parts[i + 1]);
        }
        lemma_no_return(rest, tail);
        let more = ended(rest) + tail;
        let first = parts[0].push('\n');
        assert(text =~= first + more);
        assert forall|i: int| 0 <= i < text.len() implies text[i] != '\r' by {
            if i < parts[0].len() {
                assert(parts[0].contains(parts[0][i]));
            } else if i >= first.len() {
                assert(more.contains(more[i - first.len()]));
            }
        }
    } else {
        assert(text =~= tail);
    }
}

// ---------------------------------------------------------------------------------------------
// Laws
// ---------------------------------------------------------------------------------------------

/// Taking the injected lines out of a text without carriage returns leaves none of them, keeps every
/// other line that is not empty, in its order, and does nothing the second time. A text that has
/// none comes out as it was, and of a text that has nothing else nothing is left.
pub proof fn law_only_injected_lines_go(text: Seq<char>, kind: InjectedLine)
    requires
        !text.contains('\r'),
    ensures
        ({
            let left = without_lines(text, kind);
            let listed = lines(text);
            &&& without_lines(left, kind) == left
            &&& forall|i: int| 0 <= i < lines(left).len() ==> !kind.is(#[trigger] lines(left)[i])
            &&& filled_lines(lines(left)) == filled_lines(kept_lines(listed, kind))
            &&& (forall|i: int| 0 <= i < listed.len() ==> !kind.is(#[trigger] listed[i])) ==> left
                == text
            &&& (forall|i: int| 0 <= i < listed.len() ==> kind.is(#[trigger] listed[i])) ==> left
                == Seq::<char>::empty()
        }),
{
    let left = without_lines(text, kind);
    let listed = lines(text);
    let kept = kept_lines(listed, kind);
    lemma_lines_left(text, kind);
    lemma_kept_lines(listed, kind);
    lemma_text_of_lines(text);
    lemma_text_of_lines(left);
    let found = lines(left);
    assert forall|i: int| 0 <= i < found.len() implies !kind.is(#[trigger] found[i]) by {
        assert(found[i] == kept[i]);
    }
    lemma_kept_lines(found, kind);
    if found.len() > 0 {
        lemma_joined_is_ended(found);
        if left.last() == '\n' {
            assert(without_lines(left, kind) =~= left);
        } else {
            assert(without_lines(left, kind) =~= left);
        }
    } else {
        assert(left.len() == 0);
        assert(without_lines(left, kind) =~= left);
    }
    if found != kept {
        lemma_filled_without_last(kept);
    }
    if forall|i: int| 0 <= i < listed.len() ==> !kind.is(#[trigger] listed[i]) {
        if text.len() > 0 {
            lemma_joined_is_ended(listed);
        }
        assert(left =~= text);
    }
}

} // verus!
