//! The catalogue of package descriptions, and how a descriptor is merged
//! into it.
//!
//! A catalogue maps each package name to one description. Its view is a
//! `Map` from name to description, both as sequences of characters.

use crate::json::{error_message, json_object_text, json_string_map, read_string_map, write_string_map};
use vstd::prelude::*;

verus! {

/// A JSON text could not be read or written.
#[derive(Debug, Clone, PartialEq, Eq)]
pub struct JsonError {
    /// What went wrong, in words.
    pub message: String,
}

/// What the generator says of one package.
#[derive(Debug, Clone, PartialEq, Eq)]
pub struct SrcInfo {
    /// The name of the package.
    pub pkgname: String,
    /// Its description.
    pub pkgdes: String,
}

/// What a merge did to the catalogue.
#[derive(Debug, Clone, Copy, PartialEq, Eq, Structural)]
pub enum MergeOutcome {
    /// The name was new: an entry was added.
    Inserted,
    /// The name was known with another description, which was replaced.
    Updated,
    /// The name was known with this very description: nothing changed.
    Unchanged,
}

/// The pairs as sequences of characters.
pub open spec fn pairs_view(pairs: Seq<(String, String)>) -> Seq<(Seq<char>, Seq<char>)> {
    pairs.map_values(|pair: (String, String)| (pair.0@, pair.1@))
}

/// The map that a list of pairs stands for: each name with the description of
/// its last pair.
pub open spec fn pairs_map(pairs: Seq<(Seq<char>, Seq<char>)>) -> Map<Seq<char>, Seq<char>>
    decreases pairs.len(),
{
    if pairs.len() == 0 {
        Map::empty()
    } else {
        pairs_map(pairs.drop_last()).insert(pairs.last().0, pairs.last().1)
    }
}

/// No name stands in two pairs.
pub open spec fn distinct_names(pairs: Seq<(Seq<char>, Seq<char>)>) -> bool {
    forall|i: int, j: int| 0 <= i < j < pairs.len() ==> pairs[i].0 != pairs[j].0
}

/// The catalogue after the description `pkgdes` was merged in under `pkgname`.
pub open spec fn merged(
    catalog: Map<Seq<char>, Seq<char>>,
    pkgname: Seq<char>,
    pkgdes: Seq<char>,
) -> Map<Seq<char>, Seq<char>> {
    catalog.insert(pkgname, pkgdes)
}

/// What merging the description `pkgdes` under `pkgname` does to the
/// catalogue.
pub open spec fn merge_outcome(
    catalog: Map<Seq<char>, Seq<char>>,
    pkgname: Seq<char>,
    pkgdes: Seq<char>,
) -> MergeOutcome {
    if !catalog.contains_key(pkgname) {
        MergeOutcome::Inserted
    } else if catalog[pkgname] == pkgdes {
        MergeOutcome::Unchanged
    } else {
        MergeOutcome::Updated
    }
}

/// Merging a descriptor a second time changes nothing: the catalogue is what
/// the first merge left, and the outcome of the second is `Unchanged`.
pub proof fn lemma_merge_idempotent(
    catalog: Map<Seq<char>, Seq<char>>,
    pkgname: Seq<char>,
    pkgdes: Seq<char>,
)
    ensures
        merged(merged(catalog, pkgname, pkgdes), pkgname, pkgdes) == merged(
            catalog,
            pkgname,
            pkgdes,
        ),
        merge_outcome(merged(catalog, pkgname, pkgdes), pkgname, pkgdes)
            == MergeOutcome::Unchanged,
{
    assert(merged(merged(catalog, pkgname, pkgdes), pkgname, pkgdes) =~= merged(
        catalog,
        pkgname,
        pkgdes,
    ));
}

/// Merging a descriptor into a catalogue that holds its description already
/// leaves the catalogue, and so its JSON text, as it was.
pub proof fn lemma_merge_known_changes_nothing(
    catalog: Map<Seq<char>, Seq<char>>,
    pkgname: Seq<char>,
    pkgdes: Seq<char>,
)
    requires
        catalog.contains_key(pkgname),
        catalog[pkgname] == pkgdes,
    ensures
        merged(catalog, pkgname, pkgdes) == catalog,
        merge_outcome(catalog, pkgname, pkgdes) == MergeOutcome::Unchanged,
        json_object_text(merged(catalog, pkgname, pkgdes)) == json_object_text(catalog),
{
    assert(merged(catalog, pkgname, pkgdes) =~= catalog);
}

/// Merging a descriptor leaves its description under its name, whatever
/// stood there before, and touches no other entry. The outcome is `Inserted`
/// for a new name and `Updated` for a name known with another description.
pub proof fn lemma_merge_overwrites(
    catalog: Map<Seq<char>, Seq<char>>,
    pkgname: Seq<char>,
    pkgdes: Seq<char>,
)
    ensures
        merged(catalog, pkgname, pkgdes).contains_key(pkgname),
        merged(catalog, pkgname, pkgdes)[pkgname] == pkgdes,
        forall|other: Seq<char>|
            other != pkgname ==> {
                &&& merged(catalog, pkgname, pkgdes).contains_key(other) == catalog.contains_key(
                    other,
                )
                &&& merged(catalog, pkgname, pkgdes)[other] == catalog[other]
            },
        !catalog.contains_key(pkgname) ==> merge_outcome(catalog, pkgname, pkgdes)
            == MergeOutcome::Inserted,
        catalog.contains_key(pkgname) && catalog[pkgname] != pkgdes ==> merge_outcome(
            catalog,
            pkgname,
            pkgdes,
        ) == MergeOutcome::Updated,
{
}

/// The names in the map of a list are the names in the list.
pub proof fn lemma_pairs_map_names(pairs: Seq<(Seq<char>, Seq<char>)>, name: Seq<char>)
    ensures
        pairs_map(pairs).contains_key(name) <==> exists|i: int|
            0 <= i < pairs.len() && (#[trigger] pairs[i]).0 == name,
    decreases pairs.len(),
{
    if pairs.len() > 0 {
        let front = pairs.drop_last();
        lemma_pairs_map_names(front, name);
        if pairs_map(pairs).contains_key(name) {
            if pairs.last().0 == name {
                assert(pairs[pairs.len() - 1].0 == name);
            } else {
                let i = choose|i: int| 0 <= i < front.len() && (#[trigger] front[i]).0 == name;
                assert(pairs[i].0 == name);
            }
        }
        if exists|i: int| 0 <= i < pairs.len() && (#[trigger] pairs[i]).0 == name {
            let i = choose|i: int| 0 <= i < pairs.len() && (#[trigger] pairs[i]).0 == name;
            if i < pairs.len() - 1 {
                assert(front[i].0 == name);
            }
        }
    }
}

/// Where no name stands twice in a list, none does in the list without its
/// last pair.
pub proof fn lemma_distinct_front(pairs: Seq<(Seq<char>, Seq<char>)>)
    requires
        distinct_names(pairs),
        pairs.len() > 0,
    ensures
        distinct_names(pairs.drop_last()),
{
    let front = pairs.drop_last();
    assert forall|i: int, j: int| 0 <= i < j < front.len() implies front[i].0 != front[j].0 by {
        assert(pairs[i].0 != pairs[j].0);
    }
}

/// Where no name stands twice, the map gives each name the description that
/// stands beside it.
pub proof fn lemma_pairs_map_value(pairs: Seq<(Seq<char>, Seq<char>)>, at: int)
    requires
        distinct_names(pairs),
        0 <= at < pairs.len(),
    ensures
        pairs_map(pairs).contains_key(pairs[at].0),
        pairs_map(pairs)[pairs[at].0] == pairs[at].1,
    decreases pairs.len(),
{
    if at < pairs.len() - 1 {
        let front = pairs.drop_last();
        lemma_distinct_front(pairs);
        lemma_pairs_map_value(front, at);
        assert(front[at] == pairs[at]);
        assert(pairs[at].0 != pairs[pairs.len() - 1].0);
    }
}

/// Where no name stands twice, writing a new description beside a name is
/// inserting it into the map.
pub proof fn lemma_pairs_map_update(
    pairs: Seq<(Seq<char>, Seq<char>)>,
    at: int,
    pkgdes: Seq<char>,
)
    requires
        distinct_names(pairs),
        0 <= at < pairs.len(),
    ensures
        distinct_names(pairs.update(at, (pairs[at].0, pkgdes))),
        pairs_map(pairs.update(at, (pairs[at].0, pkgdes))) == pairs_map(pairs).insert(
            pairs[at].0,
            pkgdes,
        ),
    decreases pairs.len(),
{
    let name = pairs[at].0;
    let changed = pairs.update(at, (name, pkgdes));
    let front = pairs.drop_last();
    assert(distinct_names(changed)) by {
        assert forall|i: int, j: int| 0 <= i < j < changed.len() implies changed[i].0
            != changed[j].0 by {
            assert(pairs[i].0 != pairs[j].0);
        }
    }
    if at == pairs.len() - 1 {
        assert(changed.drop_last() =~= front);
        assert(pairs_map(changed) =~= pairs_map(pairs).insert(name, pkgdes));
    } else {
        lemma_distinct_front(pairs);
        lemma_pairs_map_update(front, at, pkgdes);
        assert(front[at] == pairs[at]);
        assert(changed.drop_last() =~= front.update(at, (name, pkgdes)));
        assert(pairs[at].0 != pairs[pairs.len() - 1].0);
        assert(pairs_map(changed) =~= pairs_map(pairs).insert(name, pkgdes));
    }
}

/// Adding a pair at the end is inserting it into the map.
pub proof fn lemma_pairs_map_push(
    pairs: Seq<(Seq<char>, Seq<char>)>,
    pkgname: Seq<char>,
    pkgdes: Seq<char>,
)
    ensures
        pairs_map(pairs.push((pkgname, pkgdes))) == pairs_map(pairs).insert(pkgname, pkgdes),
{
    assert(pairs.push((pkgname, pkgdes)).drop_last() =~= pairs);
}

/// What writing a JSON text ends with, given what `serde_json` returned: the
/// text as it is, or the error in words.
pub fn written_text(returned: Result<Vec<u8>, serde_json::Error>) -> (written: Result<
    Vec<u8>,
    JsonError,
>)
    ensures
        match returned {
            Ok(text) => written == Ok::<Vec<u8>, JsonError>(text),
            Err(_) => written is Err,
        },
{
    match returned {
        Ok(text) => Ok(text),
        Err(error) => Err(JsonError { message: error_message(&error) }),
    }
}

/// The catalogue: one description for each package name.
#[derive(Debug)]
pub struct Catalog {
    entries: Vec<(String, String)>,
}

impl View for Catalog {
    type V = Map<Seq<char>, Seq<char>>;

    closed spec fn view(&self) -> Map<Seq<char>, Seq<char>> {
        pairs_map(pairs_view(self.entries@))
    }
}

impl Catalog {
    #[verifier::type_invariant]
    spec fn names_are_distinct(&self) -> bool {
        distinct_names(pairs_view(self.entries@))
    }

    /// The catalogue without entries.
    pub fn new() -> (catalog: Catalog)
        ensures
            catalog@ == Map::<Seq<char>, Seq<char>>::empty(),
    {
        Catalog { entries: Vec::new() }
    }

    /// The catalogue that a list of pairs stands for. Where a name stands in
    /// several pairs, the last of them counts.
    pub fn from_pairs(pairs: Vec<(String, String)>) -> (catalog: Catalog)
        ensures
            catalog@ == pairs_map(pairs_view(pairs@)),
    {
        let mut catalog = Catalog::new();
        let mut i: usize = 0;
        while i < pairs.len()
            invariant
                i <= pairs@.len(),
                catalog@ == pairs_map(pairs_view(pairs@).take(i as int)),
            decreases pairs@.len() - i,
        {
            let info = SrcInfo { pkgname: pairs[i].0.clone(), pkgdes: pairs[i].1.clone() };
            proof {
                let all = pairs_view(pairs@);
                assert(all.take(i + 1) =~= all.take(i as int).push(all[i as int]));
                lemma_pairs_map_push(all.take(i as int), info.pkgname@, info.pkgdes@);
            }
            catalog.merge(info);
            i += 1;
        }
        assert(pairs_view(pairs@).take(i as int) =~= pairs_view(pairs@));
        catalog
    }

    /// The entries of the catalogue as pairs of name and description, each
    /// name once.
    pub fn pairs(&self) -> (pairs: &Vec<(String, String)>)
        ensures
            pairs_map(pairs_view(pairs@)) == self@,
            distinct_names(pairs_view(pairs@)),
    {
        proof {
            use_type_invariant(self);
        }
        &self.entries
    }

    /// Reads a catalogue from its JSON text: one object whose members give
    /// each package name its description.
    pub fn parse(text: &[u8]) -> (parsed: Result<Catalog, JsonError>)
        ensures
            match parsed {
                Ok(catalog) => json_string_map(text@) == Some(catalog@),
                Err(_) => json_string_map(text@) is None,
            },
    {
        match read_string_map(text) {
            Ok(pairs) => Ok(Catalog::from_pairs(pairs)),
            Err(error) => Err(JsonError { message: error_message(&error) }),
        }
    }

    /// Writes the catalogue as JSON text: one object, its members sorted by
    /// package name. Every catalogue can be written, and two catalogues with
    /// the same entries give the same text.
    pub fn to_json(&self) -> (written: Result<Vec<u8>, JsonError>)
        ensures
            written is Ok,
            written matches Ok(text) ==> text@ == json_object_text(self@),
    {
        proof {
            use_type_invariant(self);
        }
        written_text(write_string_map(&self.entries))
    }

    /// The position of the entry for `pkgname`.
    fn position(&self, pkgname: &String) -> (at: Option<usize>)
        ensures
            match at {
                Some(i) => i < self.entries@.len() && self.entries@[i as int].0@ == pkgname@,
                None => forall|i: int|
                    0 <= i < self.entries@.len() ==> (#[trigger] self.entries@[i]).0@ != pkgname@,
            },
    {
        let mut i: usize = 0;
        while i < self.entries.len()
            invariant
                i <= self.entries@.len(),
                forall|k: int| 0 <= k < i ==> (#[trigger] self.entries@[k]).0@ != pkgname@,
            decreases self.entries@.len() - i,
        {
            if self.entries[i].0 == *pkgname {
                return Some(i);
            }
            i += 1;
        }
        None
    }

    /// The description that the catalogue holds for `pkgname`.
    pub fn get(&self, pkgname: &String) -> (pkgdes: Option<&String>)
        ensures
            match pkgdes {
                Some(found) => self@.contains_key(pkgname@) && found@ == self@[pkgname@],
                None => !self@.contains_key(pkgname@),
            },
    {
        proof {
            use_type_invariant(self);
            lemma_pairs_map_names(pairs_view(self.entries@), pkgname@);
        }
        match self.position(pkgname) {
            Some(at) => {
                proof {
                    lemma_pairs_map_value(pairs_view(self.entries@), at as int);
                }
                Some(&self.entries[at].1)
            },
            None => {
                assert forall|i: int| 0 <= i < pairs_view(self.entries@).len() implies (
                #[trigger] pairs_view(self.entries@)[i]).0 != pkgname@ by {
                    assert(self.entries@[i].0@ != pkgname@);
                }
                None
            },
        }
    }

    /// Merges one descriptor into the catalogue: afterwards the catalogue
    /// holds the descriptor's description for its name, and is otherwise as
    /// before. The outcome tells whether the name was new, was known with
    /// another description, or was known with the same one.
    pub fn merge(&mut self, info: SrcInfo) -> (outcome: MergeOutcome)
        ensures
            final(self)@ == merged(old(self)@, info.pkgname@, info.pkgdes@),
            outcome == merge_outcome(old(self)@, info.pkgname@, info.pkgdes@),
            outcome == MergeOutcome::Unchanged ==> final(self)@ == old(self)@,
    {
        let ghost before = pairs_view(self.entries@);
        proof {
            use_type_invariant(&*self);
            lemma_pairs_map_names(before, info.pkgname@);
        }
        match self.position(&info.pkgname) {
            Some(at) => {
                proof {
                    lemma_pairs_map_value(before, at as int);
                    lemma_pairs_map_update(before, at as int, info.pkgdes@);
                }
                if self.entries[at].1 == info.pkgdes {
                    assert(self@ =~= merged(self@, info.pkgname@, info.pkgdes@));
                    MergeOutcome::Unchanged
                } else {
                    let mut entries: Vec<(String, String)> = Vec::new();
                    std::mem::swap(&mut entries, &mut self.entries);
                    entries.set(at, (info.pkgname, info.pkgdes));
                    assert(pairs_view(entries@) =~= before.update(
                        at as int,
                        (before[at as int].0, info.pkgdes@),
                    ));
                    self.entries = entries;
                    MergeOutcome::Updated
                }
            },
            None => {
                proof {
                    assert forall|i: int| 0 <= i < before.len() implies (#[trigger] before[i]).0
                        != info.pkgname@ by {
                        assert(self.entries@[i].0@ != info.pkgname@);
                    }
                    lemma_pairs_map_push(before, info.pkgname@, info.pkgdes@);
                }
                let mut entries: Vec<(String, String)> = Vec::new();
                std::mem::swap(&mut entries, &mut self.entries);
                entries.push((info.pkgname, info.pkgdes));
                assert(pairs_view(entries@) =~= before.push((info.pkgname@, info.pkgdes@)));
                self.entries = entries;
                MergeOutcome::Inserted
            },
        }
    }
}

} // verus!
