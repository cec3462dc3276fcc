//! What a run achieves: after it, the checkouts below the root are the
//! declared repositories, and a second run finds nothing to do.
use crate::config::declares;
use crate::plan::{clones, lemma_clones, lemma_removals, names, removals};
use crate::reconcile::{ends_clone, ends_removal, pending, start, well_formed, RunView};
use crate::repo::RepoView;
use crate::report::{has_line, nothing_kept, succeeded, Outcome, RecordView};
use vstd::prelude::*;

verus! {

/// Whether something stands at `path` below the root after the run, given
/// what was observed before it and what the report says was done: what was
/// there and was not removed, and what was cloned or found in place.
pub open spec fn exists_after(observed: Seq<Seq<char>>, records: Seq<RecordView>, path: Seq<char>)
    -> bool {
    ||| observed.contains(path) && !has_line(records, path, Outcome::Removed)
    ||| has_line(records, path, Outcome::Cloned)
    ||| has_line(records, path, Outcome::Skipped)
}

/// The run carried out the plan of what was observed and declared, and has
/// come to its end.
pub open spec fn finished_run_of(
    v: RunView,
    observed: Seq<Seq<char>>,
    declared: Seq<RepoView>,
    clean_only: bool,
) -> bool {
    &&& well_formed(v)
    &&& v.to_remove == removals(observed, declared)
    &&& v.to_clone == clones(observed, declared, clean_only)
    &&& pending(v) is Finish
}

/// A line that says a path was removed is a line of a removal that was
/// planned; one that says it was cloned or skipped, of a planned clone.
proof fn lemma_lines_follow_the_plan(v: RunView, path: Seq<char>)
    requires
        well_formed(v),
        pending(v) is Finish,
    ensures
        has_line(v.records, path, Outcome::Removed) ==> v.to_remove.contains(path),
        has_line(v.records, path, Outcome::Cloned) || has_line(v.records, path, Outcome::Skipped)
            ==> names(v.to_clone).contains(path),
{
    let r = v.to_remove.len() as int;
    let removed_line = RecordView { path, outcome: Outcome::Removed };
    let cloned_line = RecordView { path, outcome: Outcome::Cloned };
    let skipped_line = RecordView { path, outcome: Outcome::Skipped };
    if v.records.contains(removed_line) {
        let k = choose|k: int| 0 <= k < v.records.len() && v.records[k] == removed_line;
        if k >= r {
            assert(ends_clone(v.records[r + (k - r)].outcome));
        }
        assert(v.to_remove[k] == path);
    }
    if v.records.contains(cloned_line) || v.records.contains(skipped_line) {
        let k = choose|k: int|
            0 <= k < v.records.len() && (v.records[k] == cloned_line || v.records[k]
                == skipped_line);
        if k < r {
            assert(ends_removal(v.records[k].outcome));
        }
        assert(v.records[r + (k - r)].path == v.to_clone[k - r].name);
        assert(names(v.to_clone)[k - r] == path);
    }
}

/// What stands below the root after a run that has come to its end, however
/// its items ended. A declared checkout that was there is still there. An
/// undeclared one is there unless the report says it was removed. A
/// declared one that was missing is there if the report says it was cloned
/// or found in place. Nothing else is there.
pub proof fn lemma_after_run(
    observed: Seq<Seq<char>>,
    declared: Seq<RepoView>,
    clean_only: bool,
    v: RunView,
    path: Seq<char>,
)
    requires
        finished_run_of(v, observed, declared, clean_only),
    ensures
        exists_after(observed, v.records, path) <==> {
            ||| observed.contains(path) && declares(declared, path)
            ||| observed.contains(path) && !declares(declared, path) && !has_line(
                v.records,
                path,
                Outcome::Removed,
            )
            ||| declares(declared, path) && !observed.contains(path) && !clean_only && (has_line(
                v.records,
                path,
                Outcome::Cloned,
            ) || has_line(v.records, path, Outcome::Skipped))
        },
{
    lemma_lines_follow_the_plan(v, path);
    lemma_removals(observed, declared, path);
    if clean_only {
        assert(names(v.to_clone) =~= Seq::<Seq<char>>::empty());
    } else {
        lemma_clones(observed, declared, path);
    }
}

/// Every declared repository stands below the root after a run that
/// finished without a failure, unless the run was clean-only and the
/// repository was missing before. Whether a checkout was kept for its local
/// changes does not matter here.
pub proof fn lemma_declared_stand_after(
    observed: Seq<Seq<char>>,
    declared: Seq<RepoView>,
    clean_only: bool,
    v: RunView,
    path: Seq<char>,
)
    requires
        finished_run_of(v, observed, declared, clean_only),
        succeeded(v.records),
        declares(declared, path),
        observed.contains(path) || !clean_only,
    ensures
        exists_after(observed, v.records, path),
{
    lemma_after_run(observed, declared, clean_only, v, path);
    if !observed.contains(path) {
        lemma_clones(observed, declared, path);
        let r = v.to_remove.len() as int;
        let k = choose|k: int| 0 <= k < v.to_clone.len() && names(v.to_clone)[k] == path;
        let line = v.records[r + k];
        assert(line.path == path && ends_clone(line.outcome));
        assert(line == (RecordView { path, outcome: Outcome::Cloned }) || line == (RecordView {
            path,
            outcome: Outcome::Skipped,
        }));
    }
}

/// No undeclared checkout is left below the root after a run that finished
/// without a failure and kept no checkout for its local changes.
pub proof fn lemma_undeclared_are_gone_after(
    observed: Seq<Seq<char>>,
    declared: Seq<RepoView>,
    clean_only: bool,
    v: RunView,
    path: Seq<char>,
)
    requires
        finished_run_of(v, observed, declared, clean_only),
        succeeded(v.records),
        nothing_kept(v.records),
        !declares(declared, path),
    ensures
        !exists_after(observed, v.records, path),
{
    lemma_after_run(observed, declared, clean_only, v, path);
    if observed.contains(path) {
        lemma_removals(observed, declared, path);
        let k = choose|k: int| 0 <= k < v.to_remove.len() && v.to_remove[k] == path;
        assert(v.records[k].path == path && ends_removal(v.records[k].outcome));
        assert(v.records[k] == (RecordView { path, outcome: Outcome::Removed }));
    }
}

/// A run converges. After a run that finished without a failure and kept no
/// checkout for its local changes, what stands below the root is what is
/// declared: every declared repository is there, unless the run was
/// clean-only and the repository was missing before, and nothing undeclared
/// is left.
pub proof fn lemma_run_converges(
    observed: Seq<Seq<char>>,
    declared: Seq<RepoView>,
    clean_only: bool,
    v: RunView,
    path: Seq<char>,
)
    requires
        finished_run_of(v, observed, declared, clean_only),
        succeeded(v.records),
        nothing_kept(v.records),
    ensures
        exists_after(observed, v.records, path) <==> declares(declared, path) && (
        observed.contains(path) || !clean_only),
{
    lemma_after_run(observed, declared, clean_only, v, path);
    if declares(declared, path) {
        if observed.contains(path) || !clean_only {
            lemma_declared_stand_after(observed, declared, clean_only, v, path);
        }
    } else {
        lemma_undeclared_are_gone_after(observed, declared, clean_only, v, path);
    }
}

/// What a second run finds to do, on what a first run left below the root
/// and with the same declared repositories, however the items of the first
/// ended: it removes again exactly what the first planned to remove and did
/// not, and clones again exactly what the first planned to clone and neither
/// cloned nor found in place.
pub proof fn lemma_second_run_repeats_what_was_left(
    observed: Seq<Seq<char>>,
    declared: Seq<RepoView>,
    clean_only: bool,
    v: RunView,
    observed_again: Seq<Seq<char>>,
    path: Seq<char>,
)
    requires
        finished_run_of(v, observed, declared, clean_only),
        forall|p: Seq<char>| #[trigger]
            observed_again.contains(p) <==> exists_after(observed, v.records, p),
    ensures
        removals(observed_again, declared).contains(path) <==> removals(
            observed,
            declared,
        ).contains(path) && !has_line(v.records, path, Outcome::Removed),
        names(clones(observed_again, declared, clean_only)).contains(path) <==> names(
            clones(observed, declared, clean_only),
        ).contains(path) && !has_line(v.records, path, Outcome::Cloned) && !has_line(
            v.records,
            path,
            Outcome::Skipped,
        ),
{
    lemma_after_run(observed, declared, clean_only, v, path);
    lemma_removals(observed, declared, path);
    lemma_removals(observed_again, declared, path);
    assert(observed_again.contains(path) <==> exists_after(observed, v.records, path));
    if clean_only {
        assert(names(clones(observed, declared, clean_only)) =~= Seq::<Seq<char>>::empty());
        assert(names(clones(observed_again, declared, clean_only)) =~= Seq::<Seq<char>>::empty());
    } else {
        lemma_clones(observed, declared, path);
        lemma_clones(observed_again, declared, path);
    }
}

/// A run is idempotent. A second run, on what a run that finished without a
/// failure and kept no checkout left below the root, with the same declared
/// repositories, has nothing to remove and nothing to clone: from its first
/// state on it asks for nothing, under whatever root.
pub proof fn lemma_second_run_is_empty(
    observed: Seq<Seq<char>>,
    declared: Seq<RepoView>,
    clean_only: bool,
    v: RunView,
    observed_again: Seq<Seq<char>>,
    root: Seq<char>,
)
    requires
        finished_run_of(v, observed, declared, clean_only),
        succeeded(v.records),
        nothing_kept(v.records),
        forall|p: Seq<char>| #[trigger]
            observed_again.contains(p) <==> exists_after(observed, v.records, p),
    ensures
        removals(observed_again, declared).len() == 0,
        clones(observed_again, declared, clean_only).len() == 0,
        pending(
            start(
                root,
                removals(observed_again, declared),
                clones(observed_again, declared, clean_only),
            ),
        ) is Finish,
{
    let again = removals(observed_again, declared);
    if again.len() > 0 {
        let p = again[0];
        assert(again.contains(p));
        lemma_removals(observed_again, declared, p);
        assert(observed_again.contains(p));
        lemma_run_converges(observed, declared, clean_only, v, p);
    }
    let more = clones(observed_again, declared, clean_only);
    if more.len() > 0 {
        let p = more[0].name;
        assert(names(more)[0] == p);
        lemma_clones(observed_again, declared, p);
        lemma_run_converges(observed, declared, clean_only, v, p);
        assert(observed_again.contains(p) <==> exists_after(observed, v.records, p));
    }
}

/// A clean-only run never asks for a clone, in any state, whatever is
/// declared and whatever is missing.
pub proof fn lemma_clean_only_never_clones(
    observed: Seq<Seq<char>>,
    declared: Seq<RepoView>,
    v: RunView,
)
    requires
        well_formed(v),
        v.to_clone == clones(observed, declared, true),
    ensures
        !(pending(v) is Clone),
        !(pending(v) is Probe),
{
}

} // verus!
