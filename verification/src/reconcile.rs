//! One reconciliation run, as a state machine. The run asks for one action
//! at a time; the caller performs it and reports what happened.
use crate::config::views;
use crate::path::{join, joined};
use crate::plan::{clones, plan, removals, Plan};
use crate::repo::{consistent, Repo, RepoView};
use crate::report::{lines, FailureKind, Outcome, Record, RecordView};
use crate::scan::{checkouts, entries, scan, unreadable, Entry, ScanError};
use crate::seqs::{first_where, texts};
use vstd::prelude::*;

verus! {

/// What the caller reports back.
#[derive(Clone, Copy, Debug, PartialEq, Eq, Structural)]
pub enum Event {
    /// The checkout asked about holds no local changes.
    Clean,
    /// The checkout asked about holds local changes.
    Dirty,
    /// The directory asked for was deleted.
    Removed,
    /// The path asked about exists.
    Present,
    /// The path asked about does not exist.
    Absent,
    /// The clone asked for was made.
    Cloned,
    /// The action asked for failed.
    Failed(FailureKind),
}

impl Event {
    /// The answer to the question about a checkout, given whether a Git
    /// repository stands there and the number of local changes found in it.
    /// A repository with any local change is dirty. One with none is clean,
    /// and so is a directory that is no repository: it has no local changes
    /// to lose.
    pub fn inspected(is_repository: bool, changes: usize) -> (e: Event)
        ensures
            is_repository && changes != 0 ==> e == Event::Dirty,
            !is_repository || changes == 0 ==> e == Event::Clean,
    {
        if is_repository && changes != 0 {
            Event::Dirty
        } else {
            Event::Clean
        }
    }

    /// The answer to the question about a destination, given whether
    /// anything exists there.
    pub fn probed(present: bool) -> (e: Event)
        ensures
            present ==> e == Event::Present,
            !present ==> e == Event::Absent,
    {
        if present {
            Event::Present
        } else {
            Event::Absent
        }
    }
}

/// What the caller is asked to do next.
#[derive(Clone, Debug, PartialEq, Eq)]
pub enum Action {
    /// Say whether the checkout at `target` holds local changes.
    Inspect { target: String },
    /// Delete the directory tree at `target`.
    Remove { target: String },
    /// Say whether anything exists at `target`.
    Probe { target: String },
    /// Clone `url` into `target`.
    Clone { url: String, target: String },
    /// Nothing is left to do.
    Finish,
}

/// An action, as plain values.
pub enum ActionView {
    Inspect { target: Seq<char> },
    Remove { target: Seq<char> },
    Probe { target: Seq<char> },
    Clone { url: Seq<char>, target: Seq<char> },
    Finish,
}

impl View for Action {
    type V = ActionView;

    open spec fn view(&self) -> ActionView {
        match self {
            Action::Inspect { target } => ActionView::Inspect { target: target@ },
            Action::Remove { target } => ActionView::Remove { target: target@ },
            Action::Probe { target } => ActionView::Probe { target: target@ },
            Action::Clone { url, target } => ActionView::Clone { url: url@, target: target@ },
            Action::Finish => ActionView::Finish,
        }
    }
}

/// The state of a run, as plain values: the plan, how far the run has come
/// in each of its two lists, whether the item now in turn is cleared (a
/// checkout to remove was found clean, the destination of a clone was found
/// absent), and one line for each item that is done.
pub struct RunView {
    pub root: Seq<char>,
    pub to_remove: Seq<Seq<char>>,
    pub to_clone: Seq<RepoView>,
    pub removed: int,
    pub cloned: int,
    pub cleared: bool,
    pub records: Seq<RecordView>,
}

/// The state in which a run begins.
pub open spec fn start(root: Seq<char>, to_remove: Seq<Seq<char>>, to_clone: Seq<RepoView>)
    -> RunView {
    RunView {
        root,
        to_remove,
        to_clone,
        removed: 0,
        cloned: 0,
        cleared: false,
        records: Seq::empty(),
    }
}

/// A removal ends as removed, as kept, or as a failed removal.
pub open spec fn ends_removal(o: Outcome) -> bool {
    o == Outcome::Removed || o == Outcome::Kept || o == Outcome::Failed(FailureKind::Removal)
}

/// A clone ends as cloned, as skipped, or as a failure that is no removal.
pub open spec fn ends_clone(o: Outcome) -> bool {
    o == Outcome::Cloned || o == Outcome::Skipped || o == Outcome::Failed(FailureKind::Clone) || o
        == Outcome::Failed(FailureKind::Credential)
}

/// The states that a run can be in. Removals come first; the report has one
/// line for each item done, in the order of the plan.
pub open spec fn well_formed(v: RunView) -> bool {
    &&& 0 <= v.removed <= v.to_remove.len()
    &&& 0 <= v.cloned <= v.to_clone.len()
    &&& v.cloned > 0 ==> v.removed == v.to_remove.len()
    &&& v.cleared ==> v.removed < v.to_remove.len() || v.cloned < v.to_clone.len()
    &&& v.records.len() == v.removed + v.cloned
    &&& forall|k: int|
        0 <= k < v.removed ==> (#[trigger] v.records[k]).path == v.to_remove[k] && ends_removal(
            v.records[k].outcome,
        )
    &&& forall|k: int|
        0 <= k < v.cloned ==> (#[trigger] v.records[v.removed + k]).path == v.to_clone[k].name
            && ends_clone(v.records[v.removed + k].outcome)
}

/// The action that a state asks for. The removals come first: for each
/// checkout the question whether it holds local changes, and the removal
/// only once it is known to be clean. Then for each repository to clone the
/// question whether its destination exists, and the clone only once it is
/// known to be absent.
pub open spec fn pending(v: RunView) -> ActionView {
    if v.removed < v.to_remove.len() {
        let target = joined(v.root, v.to_remove[v.removed]);
        if v.cleared {
            ActionView::Remove { target }
        } else {
            ActionView::Inspect { target }
        }
    } else if v.cloned < v.to_clone.len() {
        let repo = v.to_clone[v.cloned];
        if v.cleared {
            ActionView::Clone { url: repo.url, target: joined(v.root, repo.name) }
        } else {
            ActionView::Probe { target: joined(v.root, repo.name) }
        }
    } else {
        ActionView::Finish
    }
}

/// The state with one more line in the report.
pub open spec fn noted(v: RunView, path: Seq<char>, outcome: Outcome) -> RunView {
    RunView {
        records: v.records.push(RecordView { path, outcome }),
        ..v
    }
}

/// The state after an event. A failure is noted against its item and the
/// run goes on. A checkout with local changes is kept, and an existing
/// destination is skipped, both without error. An event that does not
/// answer the pending action changes nothing.
pub open spec fn next(v: RunView, e: Event) -> RunView {
    match pending(v) {
        ActionView::Inspect { .. } => {
            let path = v.to_remove[v.removed];
            let done = RunView { removed: v.removed + 1, ..v };
            match e {
                Event::Clean => RunView { cleared: true, ..v },
                Event::Dirty => noted(done, path, Outcome::Kept),
                Event::Failed(FailureKind::Removal) => noted(
                    done,
                    path,
                    Outcome::Failed(FailureKind::Removal),
                ),
                _ => v,
            }
        },
        ActionView::Remove { .. } => {
            let path = v.to_remove[v.removed];
            let done = RunView { removed: v.removed + 1, cleared: false, ..v };
            match e {
                Event::Removed => noted(done, path, Outcome::Removed),
                Event::Failed(FailureKind::Removal) => noted(
                    done,
                    path,
                    Outcome::Failed(FailureKind::Removal),
                ),
                _ => v,
            }
        },
        ActionView::Probe { .. } => {
            let path = v.to_clone[v.cloned].name;
            match e {
                Event::Present => noted(
                    RunView { cloned: v.cloned + 1, ..v },
                    path,
                    Outcome::Skipped,
                ),
                Event::Absent => RunView { cleared: true, ..v },
                _ => v,
            }
        },
        ActionView::Clone { .. } => {
            let path = v.to_clone[v.cloned].name;
            let done = RunView { cloned: v.cloned + 1, cleared: false, ..v };
            match e {
                Event::Cloned => noted(done, path, Outcome::Cloned),
                Event::Failed(FailureKind::Clone) => noted(
                    done,
                    path,
                    Outcome::Failed(FailureKind::Clone),
                ),
                Event::Failed(FailureKind::Credential) => noted(
                    done,
                    path,
                    Outcome::Failed(FailureKind::Credential),
                ),
                _ => v,
            }
        },
        ActionView::Finish => v,
    }
}

/// The number of events that the run still needs at most.
pub open spec fn remaining(v: RunView) -> int {
    2 * (v.to_remove.len() - v.removed) + 2 * (v.to_clone.len() - v.cloned) - if v.cleared {
        1int
    } else {
        0int
    }
}

/// Every event leads from a state of a run to a state of the same run.
pub proof fn lemma_next_is_well_formed(v: RunView, e: Event)
    requires
        well_formed(v),
    ensures
        well_formed(next(v, e)),
        next(v, e).root == v.root,
        next(v, e).to_remove == v.to_remove,
        next(v, e).to_clone == v.to_clone,
{
    let w = next(v, e);
    if w != v {
        assert forall|k: int| 0 <= k < w.removed implies (#[trigger] w.records[k]).path
            == w.to_remove[k] && ends_removal(w.records[k].outcome) by {
            if k < v.removed {
                assert(w.records[k] == v.records[k]);
            }
        }
        assert forall|k: int| 0 <= k < w.cloned implies (#[trigger] w.records[w.removed + k]).path
            == w.to_clone[k].name && ends_clone(w.records[w.removed + k].outcome) by {
            if k < v.cloned {
                assert(w.records[w.removed + k] == v.records[v.removed + k]);
            }
        }
    }
}

/// The state of a run after a sequence of events.
pub open spec fn after_events(v: RunView, events: Seq<Event>) -> RunView
    decreases events.len(),
{
    if events.len() == 0 {
        v
    } else {
        next(after_events(v, events.drop_last()), events.last())
    }
}

/// Whatever the events, a run stays a run of the plan it began with.
pub proof fn lemma_every_state_is_well_formed(
    root: Seq<char>,
    to_remove: Seq<Seq<char>>,
    to_clone: Seq<RepoView>,
    events: Seq<Event>,
)
    ensures
        well_formed(after_events(start(root, to_remove, to_clone), events)),
        after_events(start(root, to_remove, to_clone), events).root == root,
        after_events(start(root, to_remove, to_clone), events).to_remove == to_remove,
        after_events(start(root, to_remove, to_clone), events).to_clone == to_clone,
    decreases events.len(),
{
    if events.len() > 0 {
        lemma_every_state_is_well_formed(root, to_remove, to_clone, events.drop_last());
        lemma_next_is_well_formed(
            after_events(start(root, to_remove, to_clone), events.drop_last()),
            events.last(),
        );
    }
}

/// A run ends: an event either changes nothing or brings the run closer to
/// its end, and the run is finished exactly when nothing remains.
pub proof fn lemma_run_ends(v: RunView, e: Event)
    requires
        well_formed(v),
    ensures
        remaining(v) >= 0,
        remaining(v) == 0 <==> pending(v) is Finish,
        next(v, e) == v || remaining(next(v, e)) < remaining(v),
{
}

/// For every pending action some event moves the run on.
pub proof fn lemma_some_event_answers(v: RunView)
    requires
        well_formed(v),
        !(pending(v) is Finish),
    ensures
        exists|e: Event| remaining(#[trigger] next(v, e)) < remaining(v),
{
    match pending(v) {
        ActionView::Inspect { .. } => {
            assert(remaining(next(v, Event::Clean)) < remaining(v));
        },
        ActionView::Remove { .. } => {
            assert(remaining(next(v, Event::Removed)) < remaining(v));
        },
        ActionView::Probe { .. } => {
            assert(remaining(next(v, Event::Absent)) < remaining(v));
        },
        _ => {
            assert(remaining(next(v, Event::Cloned)) < remaining(v));
        },
    }
}

/// A run that has nothing to clone never asks for a clone, nor about a
/// destination.
pub proof fn lemma_nothing_to_clone(v: RunView)
    requires
        well_formed(v),
        v.to_clone.len() == 0,
    ensures
        pending(v) is Inspect || pending(v) is Remove || pending(v) is Finish,
{
}

/// Nothing is removed unseen: a removal is asked for only in a state that an
/// answer of `Clean` to the question about the same checkout led to.
pub proof fn lemma_removal_follows_inspection(v: RunView, e: Event)
    requires
        well_formed(v),
        next(v, e) != v,
        pending(next(v, e)) is Remove,
    ensures
        pending(v) is Inspect,
        e == Event::Clean,
        pending(v)->Inspect_target == pending(next(v, e))->Remove_target,
{
}

/// A run begins with a question, never with a removal or a clone.
pub proof fn lemma_start_asks_first(
    root: Seq<char>,
    to_remove: Seq<Seq<char>>,
    to_clone: Seq<RepoView>,
)
    ensures
        well_formed(start(root, to_remove, to_clone)),
        !(pending(start(root, to_remove, to_clone)) is Remove),
        !(pending(start(root, to_remove, to_clone)) is Clone),
{
}

/// A reconciliation run in progress.
#[derive(Debug, PartialEq, Eq)]
pub struct Reconciler {
    root: String,
    to_remove: Vec<String>,
    to_clone: Vec<Repo>,
    removed: usize,
    cloned: usize,
    cleared: bool,
    records: Vec<Record>,
}

impl View for Reconciler {
    type V = RunView;

    closed spec fn view(&self) -> RunView {
        RunView {
            root: self.root@,
            to_remove: texts(self.to_remove@),
            to_clone: views(self.to_clone@),
            removed: self.removed as int,
            cloned: self.cloned as int,
            cleared: self.cleared,
            records: lines(self.records@),
        }
    }
}

impl Reconciler {
    #[verifier::type_invariant]
    spec fn inv(&self) -> bool {
        well_formed(self@)
    }

    /// Begins a run under `root`: compares the checkouts observed there with
    /// the declared repositories and plans the removals and the clones; a
    /// clean-only run plans no clone.
    pub fn new(root: &str, observed: &Vec<String>, declared: &Vec<Repo>, clean_only: bool) -> (r:
        Self)
        ensures
            r@ == start(
                root@,
                removals(texts(observed@), views(declared@)),
                clones(texts(observed@), views(declared@), clean_only),
            ),
    {
        Self::from_plan(root, plan(observed, declared, clean_only))
    }

    /// Begins a run under `root` that carries out `plan`.
    pub fn from_plan(root: &str, plan: Plan) -> (r: Self)
        ensures
            r@ == start(root@, texts(plan.to_remove@), views(plan.to_clone@)),
    {
        let r = Reconciler {
            root: root.to_owned(),
            to_remove: plan.to_remove,
            to_clone: plan.to_clone,
            removed: 0,
            cloned: 0,
            cleared: false,
            records: Vec::new(),
        };
        assert(lines(r.records@) =~= Seq::<RecordView>::empty());
        r
    }

    /// Begins a run from the result of a walk of `root`. A walk with an
    /// unreadable entry fails the run before anything is planned.
    pub fn begin(root: &str, walk: &Vec<Entry>, declared: &Vec<Repo>, clean_only: bool) -> (r:
        Result<Self, ScanError>)
        ensures
            first_where(entries(walk@), unreadable()) < walk.len() ==> r is Err && r->Err_0.detail@
                == walk[first_where(entries(walk@), unreadable())].path@,
            first_where(entries(walk@), unreadable()) >= walk.len() ==> r is Ok && r->Ok_0@
                == start(
                root@,
                removals(checkouts(entries(walk@)), views(declared@)),
                clones(checkouts(entries(walk@)), views(declared@), clean_only),
            ),
    {
        match scan(walk) {
            Ok(observed) => Ok(Self::new(root, &observed, declared, clean_only)),
            Err(e) => Err(e),
        }
    }

    /// The action that the run asks for now. The URL of a clone is the one
    /// derived from the name of the repository.
    pub fn pending(&self) -> (a: Action)
        ensures
            a@ == pending(self@),
            well_formed(self@),
            a is Clone ==> consistent(self@.to_clone[self@.cloned].name, a@->Clone_url),
    {
        proof {
            use_type_invariant(self);
        }
        if self.removed < self.to_remove.len() {
            let target = join(self.root.as_str(), self.to_remove[self.removed].as_str());
            if self.cleared {
                Action::Remove { target }
            } else {
                Action::Inspect { target }
            }
        } else if self.cloned < self.to_clone.len() {
            let repo = &self.to_clone[self.cloned];
            let target = join(self.root.as_str(), repo.get_name());
            if self.cleared {
                Action::Clone { url: repo.get_url().to_owned(), target }
            } else {
                Action::Probe { target }
            }
        } else {
            Action::Finish
        }
    }

    /// Whether nothing is left to do.
    pub fn is_finished(&self) -> (r: bool)
        ensures
            r == (pending(self@) is Finish),
            well_formed(self@),
    {
        proof {
            use_type_invariant(self);
        }
        self.removed >= self.to_remove.len() && self.cloned >= self.to_clone.len()
    }

    /// Takes the caller's report of what happened to the pending action.
    pub fn record(self, event: Event) -> (r: Self)
        ensures
            r@ == next(self@, event),
            well_formed(r@),
    {
        proof {
            use_type_invariant(&self);
            lemma_next_is_well_formed(self@, event);
        }
        let ghost before = self@;
        let Reconciler { root, to_remove, to_clone, removed, cloned, cleared, mut records } = self;
        let ghost old_lines = lines(records@);
        if removed < to_remove.len() {
            let outcome = match (cleared, event) {
                (false, Event::Dirty) => Outcome::Kept,
                (true, Event::Removed) => Outcome::Removed,
                (_, Event::Failed(FailureKind::Removal)) => Outcome::Failed(FailureKind::Removal),
                (false, Event::Clean) => {
                    return Reconciler {
                        root,
                        to_remove,
                        to_clone,
                        removed,
                        cloned,
                        cleared: true,
                        records,
                    };
                },
                _ => {
                    return Reconciler { root, to_remove, to_clone, removed, cloned, cleared, records };
                },
            };
            records.push(Record { path: to_remove[removed].clone(), outcome });
            assert(lines(records@) =~= old_lines.push(
                RecordView { path: to_remove[removed as int]@, outcome },
            ));
            Reconciler {
                root,
                to_remove,
                to_clone,
                removed: removed + 1,
                cloned,
                cleared: false,
                records,
            }
        } else if cloned < to_clone.len() {
            let outcome = match (cleared, event) {
                (false, Event::Present) => Outcome::Skipped,
                (true, Event::Cloned) => Outcome::Cloned,
                (true, Event::Failed(FailureKind::Clone)) => Outcome::Failed(FailureKind::Clone),
                (true, Event::Failed(FailureKind::Credential)) => Outcome::Failed(
                    FailureKind::Credential,
                ),
                (false, Event::Absent) => {
                    return Reconciler {
                        root,
                        to_remove,
                        to_clone,
                        removed,
                        cloned,
                        cleared: true,
                        records,
                    };
                },
                _ => {
                    return Reconciler { root, to_remove, to_clone, removed, cloned, cleared, records };
                },
            };
            records.push(Record { path: to_clone[cloned].get_name().to_owned(), outcome });
            assert(lines(records@) =~= old_lines.push(
                RecordView { path: to_clone[cloned as int]@.name, outcome },
            ));
            Reconciler {
                root,
                to_remove,
                to_clone,
                removed,
                cloned: cloned + 1,
                cleared: false,
                records,
            }
        } else {
            Reconciler { root, to_remove, to_clone, removed, cloned, cleared, records }
        }
    }

    /// The report so far: one line for each item done, in the order of the
    /// plan.
    pub fn report(&self) -> (r: Vec<Record>)
        ensures
            lines(r@) == self@.records,
            well_formed(self@),
    {
        proof {
            use_type_invariant(self);
        }
        let mut out: Vec<Record> = Vec::new();
        let mut i: usize = 0;
        assert(lines(out@) =~= lines(self.records@).take(0));
        while i < self.records.len()
            invariant
                i <= self.records.len(),
                lines(out@) == lines(self.records@).take(i as int),
            decreases self.records.len() - i,
        {
            let line = &self.records[i];
            let ghost before = lines(out@);
            out.push(Record { path: line.path.clone(), outcome: line.outcome });
            assert(lines(out@) =~= before.push(line@));
            assert(lines(self.records@).take(i + 1) =~= before.push(line@));
            i = i + 1;
        }
        assert(lines(self.records@).take(i as int) =~= lines(self.records@));
        out
    }
}

} // verus!
