//! One synchronisation run.
//!
//! A run begins with the requested package names (none: every package) and
//! the catalogue as it was read. The caller walks the tree and tells the run
//! of each entry; for an entry that the run selects it starts the generator
//! and reports how that ended; where the generator succeeded it hands over
//! each descriptor found in the package directory. At the end the run gives
//! back the catalogue to write, and whether every call of the generator
//! succeeded. A failed call is kept in mind and the run goes on; a run over
//! requested names that selected no entry ends in an error, and hands out no
//! catalogue.

use crate::catalog::{merge_outcome, merged, Catalog, MergeOutcome, SrcInfo};
use crate::generator::{judge, verdict, Exit, InvokeError};
use crate::walk::{excluded, names_view, WalkEntry};
use vstd::prelude::*;

verus! {

/// Why a run hands out no catalogue.
#[derive(Debug, Clone, PartialEq, Eq)]
pub enum RunError {
    /// None of the requested names, listed here, is the name of a package
    /// directory of the tree.
    NoMatch(Vec<String>),
}

/// A run as the rules see it.
pub struct RunView {
    /// The requested package names; none stands for every package.
    pub names: Seq<Seq<char>>,
    /// The catalogue with all that was merged so far.
    pub catalog: Map<Seq<char>, Seq<char>>,
    /// Whether an entry was selected so far.
    pub matched: bool,
    /// Whether every call of the generator succeeded so far.
    pub clean: bool,
}

/// What a run is told of.
pub enum Event {
    /// The walk came upon an entry.
    Entry(WalkEntry),
    /// A call of the generator ended.
    Exit(Exit),
    /// A descriptor was read: a package name and a description.
    Descriptor(Seq<char>, Seq<char>),
}

impl RunView {
    /// The run as it begins.
    pub open spec fn start(names: Seq<Seq<char>>, catalog: Map<Seq<char>, Seq<char>>) -> RunView {
        RunView { names, catalog, matched: false, clean: true }
    }

    /// The run works on requested names only.
    pub open spec fn filtered(self) -> bool {
        self.names.len() > 0
    }

    /// The run after the walk came upon `entry`.
    pub open spec fn visit(self, entry: WalkEntry) -> RunView {
        RunView { matched: self.matched || entry.is_selected(self.names), ..self }
    }

    /// The run after a call of the generator ended with `exit`.
    pub open spec fn invoked(self, exit: Exit) -> RunView {
        RunView { clean: self.clean && verdict(exit) is Ok, ..self }
    }

    /// The run after a descriptor was handed over.
    pub open spec fn absorb(self, pkgname: Seq<char>, pkgdes: Seq<char>) -> RunView {
        RunView { catalog: merged(self.catalog, pkgname, pkgdes), ..self }
    }

    /// The run after one event.
    pub open spec fn step(self, event: Event) -> RunView {
        match event {
            Event::Entry(entry) => self.visit(entry),
            Event::Exit(exit) => self.invoked(exit),
            Event::Descriptor(pkgname, pkgdes) => self.absorb(pkgname, pkgdes),
        }
    }

    /// The run after a series of events.
    pub open spec fn replay(self, events: Seq<Event>) -> RunView
        decreases events.len(),
    {
        if events.len() == 0 {
            self
        } else {
            self.replay(events.drop_last()).step(events.last())
        }
    }

    /// What the run ends with: the catalogue to write and whether every call
    /// of the generator succeeded, or nothing where names were requested and
    /// no entry was selected.
    pub open spec fn finish(self) -> Option<(Map<Seq<char>, Seq<char>>, bool)> {
        if self.filtered() && !self.matched {
            None
        } else {
            Some((self.catalog, self.clean))
        }
    }
}

/// The catalogue after every descriptor among `events` was merged into
/// `catalog`, in order.
pub open spec fn merged_all(catalog: Map<Seq<char>, Seq<char>>, events: Seq<Event>) -> Map<
    Seq<char>,
    Seq<char>,
>
    decreases events.len(),
{
    if events.len() == 0 {
        catalog
    } else {
        match events.last() {
            Event::Descriptor(pkgname, pkgdes) => merged(
                merged_all(catalog, events.drop_last()),
                pkgname,
                pkgdes,
            ),
            _ => merged_all(catalog, events.drop_last()),
        }
    }
}

/// An entry of the walk among `events` is selected by a run over `names`.
pub open spec fn some_entry_selected(names: Seq<Seq<char>>, events: Seq<Event>) -> bool {
    exists|i: int|
        0 <= i < events.len() && (#[trigger] events[i] matches Event::Entry(entry)
            && entry.is_selected(names))
}

/// A call of the generator among `events` failed.
pub open spec fn some_call_failed(events: Seq<Event>) -> bool {
    exists|i: int|
        0 <= i < events.len() && (#[trigger] events[i] matches Event::Exit(exit) && verdict(
            exit,
        ) is Err)
}

/// What a run has become after a series of events: it works on the same
/// names; it has selected an entry if it had before or one of the entries
/// among the events is selected; it is clean if it was and no call among the
/// events failed; and its catalogue holds every descriptor among the events,
/// merged in order, whatever else happened.
pub proof fn lemma_replay(run: RunView, events: Seq<Event>)
    ensures
        run.replay(events).names == run.names,
        run.replay(events).matched == (run.matched || some_entry_selected(run.names, events)),
        run.replay(events).clean == (run.clean && !some_call_failed(events)),
        run.replay(events).catalog == merged_all(run.catalog, events),
    decreases events.len(),
{
    if events.len() > 0 {
        let front = events.drop_last();
        let last = events.last();
        lemma_replay(run, front);
        if some_entry_selected(run.names, front) {
            let i = choose|i: int|
                0 <= i < front.len() && (#[trigger] front[i] matches Event::Entry(entry)
                    && entry.is_selected(run.names));
            assert(events[i] == front[i]);
        }
        if some_call_failed(front) {
            let i = choose|i: int|
                0 <= i < front.len() && (#[trigger] front[i] matches Event::Exit(exit)
                    && verdict(exit) is Err);
            assert(events[i] == front[i]);
        }
        if some_entry_selected(run.names, events) {
            let i = choose|i: int|
                0 <= i < events.len() && (#[trigger] events[i] matches Event::Entry(entry)
                    && entry.is_selected(run.names));
            if i < front.len() {
                assert(front[i] == events[i]);
            }
        }
        if some_call_failed(events) {
            let i = choose|i: int|
                0 <= i < events.len() && (#[trigger] events[i] matches Event::Exit(exit)
                    && verdict(exit) is Err);
            if i < front.len() {
                assert(front[i] == events[i]);
            }
        }
        match last {
            Event::Entry(entry) => {
                if entry.is_selected(run.names) {
                    assert(events[events.len() - 1] == last);
                }
            },
            Event::Exit(exit) => {
                if verdict(exit) is Err {
                    assert(events[events.len() - 1] == last);
                }
            },
            Event::Descriptor(_, _) => {},
        }
    }
}

/// A run over requested names of which one names a package directory of the
/// walk ends with a catalogue, whether or not the other names were found; and
/// it reports success where no call of the generator failed.
pub proof fn lemma_one_match_suffices(
    names: Seq<Seq<char>>,
    catalog: Map<Seq<char>, Seq<char>>,
    events: Seq<Event>,
)
    requires
        some_entry_selected(names, events),
    ensures
        RunView::start(names, catalog).replay(events).finish() is Some,
        !some_call_failed(events) ==> RunView::start(names, catalog).replay(events).finish()
            == Some((merged_all(catalog, events), true)),
{
    lemma_replay(RunView::start(names, catalog), events);
}

/// A run over requested names none of which names a package directory of
/// the walk ends without a catalogue: nothing is there to be written.
pub proof fn lemma_no_match_fails(
    names: Seq<Seq<char>>,
    catalog: Map<Seq<char>, Seq<char>>,
    events: Seq<Event>,
)
    requires
        names.len() > 0,
        !some_entry_selected(names, events),
    ensures
        RunView::start(names, catalog).replay(events).finish() is None,
{
    lemma_replay(RunView::start(names, catalog), events);
}

/// A failed call of the generator does not end the run: every descriptor
/// handed over before or after it is merged, and the catalogue is still
/// handed out where an entry was selected or none was asked for by name. But
/// the run reports failure.
pub proof fn lemma_failed_call_is_kept(
    names: Seq<Seq<char>>,
    catalog: Map<Seq<char>, Seq<char>>,
    events: Seq<Event>,
)
    requires
        some_call_failed(events),
        names.len() == 0 || some_entry_selected(names, events),
    ensures
        RunView::start(names, catalog).replay(events).finish() == Some(
            (merged_all(catalog, events), false),
        ),
{
    lemma_replay(RunView::start(names, catalog), events);
}

/// An entry whose path holds `.git`, `assets` or `groups` is never selected,
/// and being told of it leaves the run as it was.
pub proof fn lemma_excluded_is_passed_over(run: RunView, entry: WalkEntry)
    requires
        excluded(entry.path@),
    ensures
        !entry.is_selected(run.names),
        run.visit(entry) == run,
{
}

/// A synchronisation run in progress.
#[derive(Debug)]
pub struct Run {
    names: Vec<String>,
    catalog: Catalog,
    matched: bool,
    clean: bool,
}

impl View for Run {
    type V = RunView;

    closed spec fn view(&self) -> RunView {
        RunView {
            names: names_view(self.names@),
            catalog: self.catalog@,
            matched: self.matched,
            clean: self.clean,
        }
    }
}

impl Run {
    /// Begins a run over the packages named in `names`, or over every package
    /// where `names` is empty, with the catalogue as it was read.
    pub fn new(names: Vec<String>, catalog: Catalog) -> (run: Run)
        ensures
            run@ == RunView::start(names_view(names@), catalog@),
    {
        Run { names, catalog, matched: false, clean: true }
    }

    /// Whether the run works on requested names only.
    pub fn is_filtered(&self) -> (yes: bool)
        ensures
            yes == self@.filtered(),
    {
        self.names.len() > 0
    }

    /// The catalogue with all that was merged so far.
    pub fn catalog(&self) -> (catalog: &Catalog)
        ensures
            catalog@ == self@.catalog,
    {
        &self.catalog
    }

    /// Tells the run of an entry of the walk. The answer says whether the
    /// generator is to be called for it: only for a package directory, and in
    /// a run over requested names only for one of these names.
    pub fn visit(&mut self, entry: &WalkEntry) -> (invoke: bool)
        ensures
            invoke == entry.is_selected(old(self)@.names),
            excluded(entry.path@) ==> !invoke,
            final(self)@ == old(self)@.visit(*entry),
    {
        let invoke = entry.selected_by(&self.names);
        if invoke {
            self.matched = true;
        }
        invoke
    }

    /// Tells the run how a call of the generator ended. On `Ok` the
    /// descriptors of the package are to be collected; on `Err` the package
    /// is passed over and the run will report failure.
    pub fn invoked(&mut self, exit: Exit) -> (outcome: Result<(), InvokeError>)
        ensures
            outcome == verdict(exit),
            final(self)@ == old(self)@.invoked(exit),
    {
        let outcome = judge(exit);
        if outcome.is_err() {
            self.clean = false;
        }
        outcome
    }

    /// Hands a descriptor to the run, which merges it into the catalogue.
    /// The merge never fails; the answer tells what it did. Removing the file
    /// that the descriptor came from is left to the caller.
    pub fn absorb(&mut self, info: SrcInfo) -> (outcome: MergeOutcome)
        ensures
            outcome == merge_outcome(old(self)@.catalog, info.pkgname@, info.pkgdes@),
            final(self)@ == old(self)@.absorb(info.pkgname@, info.pkgdes@),
    {
        self.catalog.merge(info)
    }

    /// Ends the run. Where names were requested and no entry was selected,
    /// the run fails and no catalogue is handed out; else it gives the
    /// catalogue to write and whether every call of the generator succeeded.
    pub fn finish(self) -> (end: Result<(Catalog, bool), RunError>)
        ensures
            match end {
                Ok((catalog, clean)) => self@.finish() == Some((catalog@, clean)),
                Err(RunError::NoMatch(names)) => {
                    &&& self@.finish() is None
                    &&& names_view(names@) == self@.names
                },
            },
    {
        if self.names.len() > 0 && !self.matched {
            Err(RunError::NoMatch(self.names))
        } else {
            Ok((self.catalog, self.clean))
        }
    }
}

} // verus!
