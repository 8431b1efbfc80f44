//! Picking the package directories among the entries of a walk.
//!
//! A package directory lies two levels below the tree root
//! (`<root>/<category>/<package>`). An entry is passed over when `.git`,
//! `assets` or `groups` stands anywhere in its path, or when it is a plain
//! file.

use crate::text::{chars_contain, chars_of, contains};
use vstd::prelude::*;

verus! {

/// How far below the tree root the package directories lie. The walk visits
/// this level and no other.
pub const PACKAGE_DEPTH: usize = 2;

/// What the rules read of one entry that the walk came upon.
#[derive(Debug, Clone, PartialEq, Eq)]
pub struct WalkEntry {
    /// The whole path of the entry.
    pub path: String,
    /// The last segment of the path.
    pub file_name: String,
    /// How many levels below the tree root the entry lies.
    pub depth: usize,
    /// Whether the path names a plain file.
    pub is_file: bool,
}

/// One of the three names that shut a path out stands somewhere in `path`.
pub open spec fn excluded(path: Seq<char>) -> bool {
    ||| contains(path, ".git"@)
    ||| contains(path, "assets"@)
    ||| contains(path, "groups"@)
}

/// The names as sequences of characters.
pub open spec fn names_view(names: Seq<String>) -> Seq<Seq<char>> {
    names.map_values(|name: String| name@)
}

/// Whether one of the three names that shut a path out stands somewhere in
/// `path`.
pub fn is_excluded(path: &str) -> (shut_out: bool)
    ensures
        shut_out == excluded(path@),
{
    let chars = chars_of(path);
    chars_contain(&chars, &chars_of(".git")) || chars_contain(&chars, &chars_of("assets"))
        || chars_contain(&chars, &chars_of("groups"))
}

/// Whether `name` is one of `names`.
pub fn is_requested(names: &Vec<String>, name: &String) -> (held: bool)
    ensures
        held == names_view(names@).contains(name@),
{
    let mut i: usize = 0;
    while i < names.len()
        invariant
            i <= names.len(),
            forall|k: int| 0 <= k < i ==> (#[trigger] names@[k])@ != name@,
        decreases names.len() - i,
    {
        if names[i] == *name {
            assert(names_view(names@)[i as int] == name@);
            return true;
        }
        i += 1;
    }
    assert forall|k: int| 0 <= k < names_view(names@).len() implies names_view(names@)[k]
        != name@ by {
        assert(names@[k]@ != name@);
    }
    false
}

impl WalkEntry {
    /// The entry is a package directory: at the right depth, not shut out by
    /// its path, and not a plain file.
    pub open spec fn is_package(&self) -> bool {
        &&& self.depth == PACKAGE_DEPTH
        &&& !excluded(self.path@)
        &&& !self.is_file
    }

    /// The entry is a package directory that a run over `names` works on:
    /// every package directory where `names` is empty, else those whose name
    /// is one of `names`.
    pub open spec fn is_selected(&self, names: Seq<Seq<char>>) -> bool {
        self.is_package() && (names.len() == 0 || names.contains(self.file_name@))
    }

    /// Whether the entry is a package directory.
    pub fn is_package_dir(&self) -> (yes: bool)
        ensures
            yes == self.is_package(),
            excluded(self.path@) ==> !yes,
    {
        self.depth == PACKAGE_DEPTH && !is_excluded(self.path.as_str()) && !self.is_file
    }

    /// Whether a run over `names` works on the entry.
    pub fn selected_by(&self, names: &Vec<String>) -> (yes: bool)
        ensures
            yes == self.is_selected(names_view(names@)),
            excluded(self.path@) ==> !yes,
    {
        self.is_package_dir() && (names.len() == 0 || is_requested(names, &self.file_name))
    }
}

} // verus!
