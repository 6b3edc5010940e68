//! File paths, as the standard library takes them apart.
use vstd::prelude::*;

use crate::text::{lemma_place_bounds, split_first};

verus! {

/// Whether every platform reads `path` alike: it holds neither a backslash nor a colon, and does not
/// begin with two slashes. In other paths it rests on the machine what separates the components and
/// what names a drive.
pub open spec fn is_plain(path: Seq<char>) -> bool {
    &&& !path.contains('\\')
    &&& !path.contains(':')
    &&& !(path.len() > 1 && path[0] == '/' && path[1] == '/')
}

/// What stands between the slashes of `path`.
pub open spec fn pieces(path: Seq<char>) -> Seq<Seq<char>>
    decreases path.len(),
{
    match split_first(path, "/"@) {
        None => seq![path],
        Some((piece, rest)) => seq![piece] + (if rest.len() < path.len() {
            pieces(rest)
        } else {
            Seq::empty()
        }),
    }
}

/// Whether the piece at `index` counts: it is not empty, and a dot only at the very beginning.
pub open spec fn counts(listed: Seq<Seq<char>>, index: int) -> bool {
    listed[index].len() > 0 && (listed[index] != "."@ || index == 0)
}

/// The first `count` pieces, without those that do not count.
pub open spec fn counted(listed: Seq<Seq<char>>, count: int) -> Seq<Seq<char>>
    decreases count,
{
    if count <= 0 {
        Seq::empty()
    } else if counts(listed, count - 1) {
        counted(listed, count - 1).push(listed[count - 1])
    } else {
        counted(listed, count - 1)
    }
}

/// The components of a path. Two texts with the same components name the same path.
pub open spec fn components(path: Seq<char>) -> Seq<Seq<char>> {
    let named = counted(pieces(path), pieces(path).len() as int);
    if path.len() > 0 && path[0] == '/' {
        seq!["/"@] + named
    } else {
        named
    }
}

/// The components of a path without the last one. The root and the empty path have none to leave
/// out.
pub open spec fn parent_components(path: Seq<char>) -> Option<Seq<Seq<char>>> {
    let all = components(path);
    if all.len() == 0 || all == seq!["/"@] {
        None
    } else {
        Some(all.drop_last())
    }
}

/// Whether `parent` is what `path` is without its last component.
pub open spec fn is_parent(path: Seq<char>, parent: Option<Seq<char>>) -> bool {
    match parent {
        None => parent_components(path) is None,
        Some(dir) => dir.is_prefix_of(path) && parent_components(path) == Some(components(dir)),
    }
}

/// What follows the last dot of `name`, where a dot follows its first character.
pub open spec fn name_extension(name: Seq<char>) -> Option<Seq<char>>
    decreases name.len(),
{
    if name.len() <= 1 {
        None
    } else if name.last() == '.' {
        Some(Seq::empty())
    } else {
        match name_extension(name.drop_last()) {
            Some(extension) => Some(extension.push(name.last())),
            None => None,
        }
    }
}

/// The extension of the file that `path` leads to.
pub open spec fn extension(path: Seq<char>) -> Option<Seq<char>> {
    let all = components(path);
    if all.len() == 0 || all.last() == ".."@ {
        None
    } else {
        name_extension(all.last())
    }
}

/// `std::path::Path::parent` gives the path without its last component, or nothing if the path is
/// empty or ends in a root. It is the beginning of the path's own text. Of a path that is not plain
/// nothing is said: there it rests on the machine what the last component is.
#[verifier::external_body]
pub(crate) fn path_parent(path: &str) -> (result: Option<String>)
    ensures
        is_plain(path@) ==> is_parent(path@, result.deep_view()),
{
    let parent = std::path::Path::new(path).parent();
    parent.map(|dir| dir.to_string_lossy().into_owned())
}

/// `std::path::Path::extension` gives what follows the last dot of the file name, and nothing if
/// there is no file name, or no dot in it but at its beginning. Of a path that is not plain nothing
/// is said: there it rests on the machine what the file name is.
#[verifier::external_body]
pub(crate) fn path_extension(path: &str) -> (result: Option<String>)
    ensures
        is_plain(path@) ==> result.deep_view() == extension(path@),
{
    let extension = std::path::Path::new(path).extension();
    extension.map(|ext| ext.to_string_lossy().into_owned())
}

/// `std::path::Path` compares two paths by their components. Of paths that are not plain nothing is
/// said: there it rests on the machine what the components are.
#[verifier::external_body]
pub(crate) fn same_path(one: &str, other: &str) -> (result: bool)
    ensures
        is_plain(one@) && is_plain(other@) ==> result == (components(one@) == components(other@)),
{
    std::path::Path::new(one) == std::path::Path::new(other)
}

/// Whether `name` can be the name of a file on every platform.
pub open spec fn is_name(name: Seq<char>) -> bool {
    &&& name.len() > 0
    &&& !name.contains('/')
    &&& !name.contains('\\')
    &&& !name.contains(':')
}

/// Whether every platform puts names below `dir` alike, but for the separator: it neither ends with a
/// mark that only some platforms know, nor begins like a path that is taken literally.
pub open spec fn is_open_dir(dir: Seq<char>) -> bool {
    &&& !(dir.len() > 0 && (dir.last() == '\\' || dir.last() == ':'))
    &&& !(dir.len() > 1 && (dir[0] == '/' || dir[0] == '\\') && dir[1] == dir[0])
}

/// Whether `path` is the path of `name` below `dir`. The machine decides which separator stands
/// between them, where one is needed.
pub open spec fn is_below(path: Seq<char>, dir: Seq<char>, name: Seq<char>) -> bool {
    if dir.len() == 0 || dir.last() == '/' {
        path == dir + name
    } else {
        path == dir + "/"@ + name || path == dir + "\\"@ + name
    }
}

/// `std::path::Path::join` puts a name below a directory, with a separator between them unless the
/// directory is empty or ends with one. Of other names and directories nothing is said: there it
/// rests on the machine what is replaced and what is separated.
#[verifier::external_body]
pub(crate) fn path_join(dir: &str, name: &str) -> (result: String)
    ensures
        is_open_dir(dir@) && is_name(name@) ==> is_below(result@, dir@, name@),
{
    let path = std::path::Path::new(dir).join(name);
    path.to_string_lossy().into_owned()
}

/// What a plain path begins with is a plain path.
pub proof fn lemma_beginning_is_plain(path: Seq<char>, dir: Seq<char>)
    requires
        is_plain(path),
        dir.is_prefix_of(path),
    ensures
        is_plain(dir),
{
    assert forall|c: char| #[trigger] dir.contains(c) implies path.contains(c) by {
        let i = choose|i: int| 0 <= i < dir.len() && dir[i] == c;
        assert(path[i] == c);
    }
    if dir.len() > 1 {
        assert(dir[0] == path[0] && dir[1] == path[1]);
    }
}

proof fn lemma_counted_grows(listed: Seq<Seq<char>>, count: int)
    requires
        count >= 1,
        counts(listed, 0),
    ensures
        counted(listed, count).len() > 0,
    decreases count,
{
    if count > 1 {
        lemma_counted_grows(listed, count - 1);
    } else {
        assert(counted(listed, 1) == counted(listed, 0).push(listed[0]));
    }
}

/// Only the empty path has no components.
pub proof fn lemma_no_components(path: Seq<char>)
    ensures
        components(path).len() == 0 <==> path.len() == 0,
{
    reveal_strlit("/");
    lemma_place_bounds(path, "/"@, 0);
    lemma_place_bounds(path, "/"@, 1);
    let listed = pieces(path);
    if path.len() == 0 {
        assert(split_first(path, "/"@) is None);
        assert(listed =~= seq![path]);
        assert(!counts(listed, 0));
        assert(counted(listed, 1) == counted(listed, 0));
        assert(components(path).len() == 0);
    } else if path[0] != '/' {
        if let Some((piece, rest)) = split_first(path, "/"@) {
            assert(listed[0] == piece);
            if piece.len() == 0 {
                assert(path.subrange(0, 1)[0] == path[0]);
            }
        }
        assert(listed[0].len() > 0);
        lemma_counted_grows(listed, listed.len() as int);
    }
}

/// The extension of a name is what stands behind its last dot.
pub proof fn law_extension_stands_behind_the_dot(stem: Seq<char>, ending: Seq<char>)
    requires
        stem.len() > 0,
        !ending.contains('.'),
    ensures
        name_extension(stem.push('.') + ending) == Some(ending),
    decreases ending.len(),
{
    let name = stem.push('.') + ending;
    if ending.len() == 0 {
        assert(name =~= stem.push('.'));
        assert(name_extension(name)->0 =~= ending);
    } else {
        let shorter = ending.drop_last();
        assert forall|k: int| 0 <= k < shorter.len() implies shorter[k] != '.' by {
            assert(ending.contains(ending[k]));
        }
        assert(ending.contains(ending.last()));
        law_extension_stands_behind_the_dot(stem, shorter);
        assert(name.drop_last() =~= stem.push('.') + shorter);
        assert(shorter.push(ending.last()) =~= ending);
    }
}

/// A name without a dot has no extension.
pub proof fn law_names_without_a_dot_have_no_extension(name: Seq<char>)
    requires
        !name.contains('.'),
    ensures
        name_extension(name) is None,
    decreases name.len(),
{
    if name.len() > 1 {
        let shorter = name.drop_last();
        assert forall|k: int| 0 <= k < shorter.len() implies shorter[k] != '.' by {
            assert(name.contains(name[k]));
        }
        assert(name.contains(name.last()));
        law_names_without_a_dot_have_no_extension(shorter);
    }
}

} // verus!
