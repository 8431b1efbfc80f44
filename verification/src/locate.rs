//! Finding the root of the package tree.
//!
//! The root is the nearest directory, counted upward from a starting
//! directory, that holds a subdirectory named `groups`. Paths are absolute and
//! resolved (`/`, `/a`, `/a/b`); whether a path names a directory is asked of
//! the caller.

use crate::text::{chars_of, last_index_of, last_position, lemma_last_index_of};
use vstd::prelude::*;
use vstd::string::*;

verus! {

/// Why no tree root was found.
#[derive(Debug, Clone, Copy, PartialEq, Eq, Structural)]
pub enum LocateError {
    /// The starting directory is not an absolute path.
    NotAbsolute,
    /// No directory from the starting directory up to `/` holds `groups`.
    NotFound,
}

/// The path begins at the file system root.
pub open spec fn is_absolute(path: Seq<char>) -> bool {
    path.len() > 0 && path[0] == '/'
}

/// The path is the file system root itself.
pub open spec fn is_root(path: Seq<char>) -> bool {
    path.len() == 1 && path[0] == '/'
}

/// The position of the last `/` in `path`, or -1 where it has none.
pub open spec fn last_separator(path: Seq<char>) -> int {
    last_index_of(path, '/')
}

/// The directory one level up: the path without its last segment. The root is
/// its own parent.
pub open spec fn parent(path: Seq<char>) -> Seq<char> {
    if last_separator(path) <= 0 {
        seq!['/']
    } else {
        path.take(last_separator(path))
    }
}

/// The directory `levels` levels above `path`.
pub open spec fn ancestor(path: Seq<char>, levels: nat) -> Seq<char>
    decreases levels,
{
    if levels == 0 {
        path
    } else {
        parent(ancestor(path, (levels - 1) as nat))
    }
}

/// The path of the entry `name` directly under `dir`.
pub open spec fn child(dir: Seq<char>, name: Seq<char>) -> Seq<char> {
    if dir.len() > 0 && dir.last() == '/' {
        dir + name
    } else {
        dir + "/"@ + name
    }
}

/// The path of the entry named `groups` directly under `dir`: where it is a
/// directory, `dir` is the root of a tree.
pub open spec fn marker(dir: Seq<char>) -> Seq<char> {
    child(dir, "groups"@)
}

/// The path of the catalogue of the tree with root `tree`.
pub open spec fn catalog_location(tree: Seq<char>) -> Seq<char> {
    child(child(tree, "l10n"@), "en.json"@)
}

/// `is_dir` may give `answer` when asked about `path`.
pub open spec fn answers<F: Fn(&str) -> bool>(is_dir: F, path: Seq<char>, answer: bool) -> bool {
    exists|asked: &str| asked@ == path && is_dir.ensures((asked,), answer)
}

/// What a search from `directory` may end with. From a path that is not
/// absolute it ends with `NotAbsolute`. Else it ends with a directory only if
/// that directory lies some levels above `directory` (or is `directory`
/// itself), `is_dir` said yes to its `groups` and no to the `groups` of every
/// directory below it; and with `NotFound` only if `is_dir` said no to the
/// `groups` of every directory from `directory` up to `/`.
pub open spec fn located<F: Fn(&str) -> bool>(
    directory: Seq<char>,
    is_dir: F,
    found: Result<String, LocateError>,
) -> bool {
    if !is_absolute(directory) {
        found == Err::<String, LocateError>(LocateError::NotAbsolute)
    } else {
        match found {
            Ok(tree) => exists|levels: nat|
                {
                    &&& tree@ == #[trigger] ancestor(directory, levels)
                    &&& answers(is_dir, marker(tree@), true)
                    &&& forall|below: nat|
                        below < levels ==> answers(
                            is_dir,
                            marker(#[trigger] ancestor(directory, below)),
                            false,
                        )
                },
            Err(e) => {
                &&& e == LocateError::NotFound
                &&& forall|levels: nat|
                    answers(is_dir, marker(#[trigger] ancestor(directory, levels)), false)
            },
        }
    }
}

/// Where `groups` is a directory `levels` above the starting directory and
/// nowhere below, the search returns the directory `levels` above.
pub proof fn lemma_nearest_tree_is_found<F: Fn(&str) -> bool>(
    directory: Seq<char>,
    is_dir: F,
    found: Result<String, LocateError>,
    levels: nat,
)
    requires
        is_absolute(directory),
        located(directory, is_dir, found),
        !answers(is_dir, marker(ancestor(directory, levels)), false),
        forall|below: nat|
            below < levels ==> !answers(is_dir, marker(#[trigger] ancestor(directory, below)), true),
    ensures
        found is Ok,
        found->Ok_0@ == ancestor(directory, levels),
{
    match found {
        Ok(tree) => {
            let at = choose|at: nat|
                {
                    &&& tree@ == #[trigger] ancestor(directory, at)
                    &&& answers(is_dir, marker(tree@), true)
                    &&& forall|below: nat|
                        below < at ==> answers(
                            is_dir,
                            marker(#[trigger] ancestor(directory, below)),
                            false,
                        )
                };
            if at < levels {
                assert(!answers(is_dir, marker(ancestor(directory, at)), true));
            } else if levels < at {
                assert(answers(is_dir, marker(ancestor(directory, levels)), false));
            }
        },
        Err(_) => {
            assert(answers(is_dir, marker(ancestor(directory, levels)), false));
        },
    }
}

/// Where `groups` is a directory nowhere from the starting directory up to
/// `/`, the search fails with `NotFound`.
pub proof fn lemma_no_tree_without_groups<F: Fn(&str) -> bool>(
    directory: Seq<char>,
    is_dir: F,
    found: Result<String, LocateError>,
)
    requires
        is_absolute(directory),
        located(directory, is_dir, found),
        forall|levels: nat|
            !answers(is_dir, marker(#[trigger] ancestor(directory, levels)), true),
    ensures
        found == Err::<String, LocateError>(LocateError::NotFound),
{
    if let Ok(tree) = found {
        let at = choose|at: nat|
            {
                &&& tree@ == #[trigger] ancestor(directory, at)
                &&& answers(is_dir, marker(tree@), true)
            };
        assert(!answers(is_dir, marker(ancestor(directory, at)), true));
    }
}

/// Going up from an absolute path other than the root gives a shorter
/// absolute path.
pub proof fn lemma_parent_shorter(path: Seq<char>)
    requires
        is_absolute(path),
        !is_root(path),
    ensures
        is_absolute(parent(path)),
        parent(path).len() < path.len(),
{
    lemma_last_index_of(path, '/');
}

/// Above the root there is only the root.
pub proof fn lemma_ancestors_end_at_root(path: Seq<char>, at: nat, above: nat)
    requires
        is_root(ancestor(path, at)),
        at <= above,
    ensures
        ancestor(path, above) == ancestor(path, at),
    decreases above,
{
    if at < above {
        lemma_ancestors_end_at_root(path, at, (above - 1) as nat);
        let root = ancestor(path, at);
        assert(last_index_of(root, '/') == 0);
        assert(parent(root) =~= root);
    }
}

/// The directory one level up from `path`.
pub fn parent_of<'a>(path: &'a str) -> (up: &'a str)
    ensures
        up@ == parent(path@),
{
    let chars = chars_of(path);
    proof {
        reveal_strlit("/");
        lemma_last_index_of(path@, '/');
    }
    match last_position(&chars, '/') {
        Some(at) => {
            if at > 0 {
                path.substring_char(0, at)
            } else {
                assert("/"@ =~= seq!['/']);
                "/"
            }
        },
        None => {
            assert("/"@ =~= seq!['/']);
            "/"
        },
    }
}

/// The path of the entry `name` directly under `dir`.
pub fn child_of(dir: &str, name: &str) -> (path: String)
    ensures
        path@ == child(dir@, name@),
{
    let chars = chars_of(dir);
    let n: usize = chars.len();
    if n > 0 && chars[n - 1] == '/' {
        String::from_str(dir).concat(name)
    } else {
        String::from_str(dir).concat("/").concat(name)
    }
}

/// The path of the catalogue of the tree with root `tree`: the file
/// `en.json` in its directory `l10n`.
pub fn catalog_path(tree: &str) -> (path: String)
    ensures
        path@ == catalog_location(tree@),
{
    let l10n = child_of(tree, "l10n");
    child_of(l10n.as_str(), "en.json")
}

/// Finds the root of the tree that `directory` lies in.
///
/// `directory` is an absolute, resolved path. The search asks `is_dir` about
/// the entry `groups` of `directory`, then of its parent, and so on up to `/`,
/// and returns the first directory for which the answer is yes. It asks about
/// no directory above that one.
pub fn get_tree<F: Fn(&str) -> bool>(directory: &str, is_dir: F) -> (found: Result<
    String,
    LocateError,
>)
    requires
        forall|path: &str| is_dir.requires((path,)),
    ensures
        located(directory@, is_dir, found),
{
    let start = chars_of(directory);
    if start.len() == 0 || start[0] != '/' {
        return Err(LocateError::NotAbsolute);
    }
    let mut tree: &str = directory;
    let ghost mut levels: nat = 0;
    loop
        invariant
            is_absolute(directory@),
            is_absolute(tree@),
            tree@ == ancestor(directory@, levels),
            forall|path: &str| is_dir.requires((path,)),
            forall|below: nat|
                below < levels ==> answers(
                    is_dir,
                    marker(#[trigger] ancestor(directory@, below)),
                    false,
                ),
        decreases tree@.len(),
    {
        let asked = child_of(tree, "groups");
        let has_groups = is_dir(asked.as_str());
        assert(answers(is_dir, marker(tree@), has_groups));
        if has_groups {
            return Ok(String::from_str(tree));
        }
        let at_root = chars_of(tree).len() == 1;
        if at_root {
            proof {
                assert forall|above: nat|
                    answers(is_dir, marker(#[trigger] ancestor(directory@, above)), false) by {
                    if above >= levels {
                        lemma_ancestors_end_at_root(directory@, levels, above);
                    }
                }
            }
            return Err(LocateError::NotFound);
        }
        proof {
            lemma_parent_shorter(tree@);
            levels = levels + 1;
        }
        tree = parent_of(tree);
    }
}

} // verus!
