//! Where the configuration is stored.
use vstd::prelude::*;

use crate::error::outcome;
use crate::paths::{
    extension, is_below, is_name, is_open_dir, is_parent, is_plain, path_join, path_parent,
};

use super::{is_toml, path_is_toml};

verus! {

/// Whether `path` is the path of the configuration file below `dir`, by way of the gateway's own
/// directory.
pub open spec fn is_config_path(path: Seq<char>, dir: Seq<char>) -> bool {
    exists|own: Seq<char>| #[trigger]
        is_below(own, dir, "llmconduit"@) && is_below(path, own, "config.yaml"@)
}

proof fn lemma_own_dir_is_open(own: Seq<char>, dir: Seq<char>)
    requires
        is_open_dir(dir),
        is_below(own, dir, "llmconduit"@),
    ensures
        is_open_dir(own),
{
    reveal_strlit("llmconduit");
    reveal_strlit("/");
    reveal_strlit("\\");
    assert(own.last() == 't');
    if dir.len() > 1 {
        assert(own[0] == dir[0] && own[1] == dir[1]);
    } else if dir.len() == 1 {
        assert(own[0] == dir[0]);
        assert(own[1] == 'l' || own[1] == '/' || own[1] == '\\');
    } else {
        assert(own[0] == 'l');
    }
}

proof fn lemma_names_are_names()
    ensures
        is_name("llmconduit"@),
        is_name("config.yaml"@),
{
    reveal_strlit("llmconduit");
    reveal_strlit("config.yaml");
    assert("llmconduit"@.len() == 10);
    assert("config.yaml"@.len() == 11);
    assert(forall|i: int| 0 <= i < 10 ==> #[trigger] "llmconduit"@[i] >= 'a');
    assert(forall|i: int|
        0 <= i < 11 ==> (#[trigger] "config.yaml"@[i] >= 'a' || "config.yaml"@[i] == '.'));
}

/// The path of the configuration file below the directory for configurations, if there is one. Of a
/// directory whose text only some platforms can go on from, it is not said what the path is.
pub fn default_path_in(dir: Option<String>) -> (result: Result<String, String>)
    ensures
        match dir.deep_view() {
            Some(dir) => result is Ok && (is_open_dir(dir) ==> is_config_path(result->Ok_0@, dir)),
            None => outcome(result) == Err::<Seq<char>, Seq<char>>(
                "unable to determine configuration directory"@,
            ),
        },
{
    match dir {
        Some(dir) => {
            let own = path_join(dir.as_str(), "llmconduit");
            let path = path_join(own.as_str(), "config.yaml");
            proof {
                lemma_names_are_names();
                if is_open_dir(dir@) {
                    assert(is_below(own@, dir@, "llmconduit"@));
                    lemma_own_dir_is_open(own@, dir@);
                }
            }
            Ok(path)
        },
        None => Err("unable to determine configuration directory".to_string()),
    }
}

/// The directory that a configuration file is written to, or why it cannot be written: files in
/// TOML are only read. `toml` says whether this one is in TOML, and `parent` is the parent of its
/// path.
pub open spec fn place_to_write(
    path: Seq<char>,
    toml: bool,
    parent: Option<Seq<char>>,
) -> Result<Seq<char>, Seq<char>> {
    if toml {
        Err(
            "cannot write config to "@ + path
                + ": `configure` writes YAML; `.toml` config files are read-only \u{2014} use a `.yaml`/`.yml` path"@,
        )
    } else {
        match parent {
            Some(dir) => Ok(dir),
            None => Err("config path has no parent: "@ + path),
        }
    }
}

/// The directory that a configuration file with the given parent is written to.
pub fn writable_place(path: &str, toml: bool, parent: Option<String>) -> (result: Result<
    String,
    String,
>)
    ensures
        outcome(result) == place_to_write(path@, toml, parent.deep_view()),
{
    if toml {
        let mut message = "cannot write config to ".to_string();
        message.push_str(path);
        message.push_str(
            ": `configure` writes YAML; `.toml` config files are read-only \u{2014} use a `.yaml`/`.yml` path",
        );
        return Err(message);
    }
    match parent {
        Some(dir) => Ok(dir),
        None => {
            let mut message = "config path has no parent: ".to_string();
            message.push_str(path);
            Err(message)
        },
    }
}

/// The directory that a configuration file is written to, or why it cannot be written. Of a path
/// that platforms read differently it is not said which extension and which parent it has.
pub fn writable_parent(path: &str) -> (result: Result<String, String>)
    ensures
        exists|toml: bool, parent: Option<Seq<char>>|
            {
                &&& outcome(result) == #[trigger] place_to_write(path@, toml, parent)
                &&& is_plain(path@) ==> toml == is_toml(extension(path@)) && is_parent(
                    path@,
                    parent,
                )
            },
{
    let toml = path_is_toml(path);
    let parent = path_parent(path);
    let ghost found = parent.deep_view();
    let result = writable_place(path, toml, parent);
    assert(outcome(result) == place_to_write(path@, toml, found));
    result
}

} // verus!
