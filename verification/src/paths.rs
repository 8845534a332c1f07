//! Telling a file path from a plain name.

use vstd::prelude::*;
use vstd::string::*;
use crate::path::texts;
use crate::text::{has_char, same_text};

verus! {

/// Whether `string` is written as a path, that is, holds a slash or a
/// backslash.
pub fn check_if_a_path(string: &str) -> (is_path: bool)
    ensures
        is_path == (string@.contains('/') || string@.contains('\\')),
{
    has_char(string, '/') || has_char(string, '\\')
}

/// The name of the settings file: the name that was chosen in place of the
/// usual one, or the usual one, `lovepack.toml`.
pub fn get_settings_file_name(chosen: Option<&str>) -> (name: String)
    ensures
        name@ == match chosen {
            Some(given) => given@,
            None => "lovepack.toml"@,
        },
{
    match chosen {
        Some(given) => given.to_owned(),
        None => "lovepack.toml".to_owned(),
    }
}

/// The name of the folder that holds the global settings file: the name
/// that was chosen in place of the usual one, or the usual one,
/// `.lovepack`.
pub fn get_settings_folder_name(chosen: Option<&str>) -> (name: String)
    ensures
        name@ == match chosen {
            Some(given) => given@,
            None => ".lovepack"@,
        },
{
    match chosen {
        Some(given) => given.to_owned(),
        None => ".lovepack".to_owned(),
    }
}

/// The usual name of the settings file is the file name of the shared
/// settings, a dot, and their extension.
pub proof fn law_usual_names()
    ensures
        "lovepack.toml"@ == "lovepack"@ + "."@ + "toml"@,
{
    reveal_strlit("lovepack.toml");
    reveal_strlit("lovepack");
    reveal_strlit(".");
    reveal_strlit("toml");
    assert("lovepack.toml"@ =~= "lovepack"@ + "."@ + "toml"@);
}

/// The parts of a path that are left when it is walked from its start:
/// `..` undoes the part before it, if there is one, a lone backslash counts
/// for nothing, and any other part is kept.
pub open spec fn kept_parts(parts: Seq<Seq<char>>) -> Seq<Seq<char>>
    decreases parts.len(),
{
    if parts.len() == 0 {
        Seq::empty()
    } else {
        let kept = kept_parts(parts.drop_last());
        let part = parts.last();
        if part == ".."@ {
            if kept.len() > 0 {
                kept.drop_last()
            } else {
                kept
            }
        } else if part == "\\"@ {
            kept
        } else {
            kept.push(part)
        }
    }
}

/// The parts written one after another, a backslash after each.
pub open spec fn spelled(parts: Seq<Seq<char>>) -> Seq<char>
    decreases parts.len(),
{
    if parts.len() == 0 {
        Seq::<char>::empty()
    } else {
        spelled(parts.drop_last()) + parts.last() + "\\"@
    }
}

/// The parts of a path that are left once every `..` has undone the part
/// before it.
pub fn compress_parts(parts: &Vec<String>) -> (kept: Vec<String>)
    ensures
        texts(kept@) == kept_parts(texts(parts@)),
{
    let mut kept: Vec<String> = Vec::new();
    let mut at: usize = 0;
    while at < parts.len()
        invariant
            at <= parts.len(),
            texts(kept@) == kept_parts(texts(parts@).take(at as int)),
        decreases parts.len() - at,
    {
        proof {
            assert(texts(parts@).take(at + 1).drop_last() == texts(parts@).take(at as int));
        }
        if same_text(parts[at].as_str(), "..") {
            let _ = kept.pop();
        } else if !same_text(parts[at].as_str(), "\\") {
            kept.push(parts[at].clone());
        }
        at = at + 1;
    }
    proof {
        assert(texts(parts@).take(at as int) == texts(parts@));
    }
    kept
}

/// The path that the parts spell once every `..` has undone the part
/// before it: the parts that are left, a backslash after each.
pub fn compress_path(parts: &Vec<String>) -> (path: String)
    ensures
        path@ == spelled(kept_parts(texts(parts@))),
{
    let kept = compress_parts(parts);
    let mut path = String::new();
    let mut at: usize = 0;
    while at < kept.len()
        invariant
            at <= kept.len(),
            path@ == spelled(texts(kept@).take(at as int)),
        decreases kept.len() - at,
    {
        proof {
            assert(texts(kept@).take(at + 1).drop_last() == texts(kept@).take(at as int));
        }
        path.append(kept[at].as_str());
        path.append("\\");
        at = at + 1;
    }
    proof {
        assert(texts(kept@).take(at as int) == texts(kept@));
    }
    path
}

} // verus!
