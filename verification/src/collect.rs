//! Telling the descriptors among the children of a package directory.
//!
//! The generator leaves its descriptors directly inside the package
//! directory, in files whose extension is `json`. This module tells which
//! children those are, and no more. Reading such a file, handing its
//! descriptor to the run and removing the file afterwards is the caller's
//! part.

use crate::text::{chars_of, last_index_of, last_position, lemma_last_index_of, matches_at};
use vstd::prelude::*;

verus! {

/// The extension of a file name: what follows its last `.`. A name without
/// `.`, or whose only `.` is its first character, has none.
pub open spec fn extension(file_name: Seq<char>) -> Option<Seq<char>> {
    let dot = last_index_of(file_name, '.');
    if dot <= 0 {
        None
    } else {
        Some(file_name.skip(dot + 1))
    }
}

/// The file name is that of a descriptor.
pub open spec fn names_descriptor(file_name: Seq<char>) -> bool {
    extension(file_name) == Some("json"@)
}

/// Whether the child of a package directory with this file name is a
/// descriptor.
pub fn is_descriptor(file_name: &str) -> (yes: bool)
    ensures
        yes == names_descriptor(file_name@),
{
    let chars = chars_of(file_name);
    let wanted = chars_of("json");
    proof {
        lemma_last_index_of(chars@, '.');
    }
    match last_position(&chars, '.') {
        Some(dot) => {
            if dot > 0 && chars.len() - (dot + 1) == wanted.len() {
                assert(chars@.skip(dot + 1) =~= chars@.subrange(dot + 1, dot + 1 + wanted.len()));
                matches_at(&chars, &wanted, dot + 1)
            } else {
                false
            }
        },
        None => false,
    }
}

} // verus!
