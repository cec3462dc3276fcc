//! The difference between what is declared and what is on disk.
use crate::config::{declares, distinct_names, lemma_declares, position, views};
use crate::repo::{Repo, RepoView};
use crate::seqs::texts;
use vstd::prelude::*;

verus! {

/// What one run has to do: the checkouts to delete, and the repositories to
/// clone.
#[derive(Debug, PartialEq, Eq)]
pub struct Plan {
    pub to_remove: Vec<String>,
    pub to_clone: Vec<Repo>,
}

/// The paths that no record of `declared` is named after.
pub open spec fn undeclared(declared: Seq<RepoView>) -> spec_fn(Seq<char>) -> bool {
    |p: Seq<char>| !declares(declared, p)
}

/// The records whose checkout is not among `observed`.
pub open spec fn missing(observed: Seq<Seq<char>>) -> spec_fn(RepoView) -> bool {
    |r: RepoView| !observed.contains(r.name)
}

/// The names of a list of records.
pub open spec fn names(s: Seq<RepoView>) -> Seq<Seq<char>> {
    Seq::new(s.len(), |i: int| s[i].name)
}

/// The observed checkouts that are not declared, in the order observed.
pub open spec fn removals(observed: Seq<Seq<char>>, declared: Seq<RepoView>) -> Seq<Seq<char>> {
    observed.filter(undeclared(declared))
}

/// The declared repositories that are not observed, in the order declared;
/// none at all in a clean-only run.
pub open spec fn clones(observed: Seq<Seq<char>>, declared: Seq<RepoView>, clean_only: bool) -> Seq<
    RepoView,
> {
    if clean_only {
        Seq::empty()
    } else {
        declared.filter(missing(observed))
    }
}

/// A path is removed exactly when it is observed and not declared.
pub proof fn lemma_removals(observed: Seq<Seq<char>>, declared: Seq<RepoView>, path: Seq<char>)
    ensures
        removals(observed, declared).contains(path) <==> observed.contains(path) && !declares(
            declared,
            path,
        ),
{
    let pred = undeclared(declared);
    let out = observed.filter(pred);
    if out.contains(path) {
        let j = choose|j: int| 0 <= j < out.len() && out[j] == path;
        observed.lemma_filter_pred(pred, j);
        observed.lemma_filter_contains_rev(pred, path);
    }
    if observed.contains(path) && !declares(declared, path) {
        let k = choose|k: int| 0 <= k < observed.len() && observed[k] == path;
        observed.lemma_filter_contains(pred, k);
    }
}

/// Unless the run is clean-only, a repository is cloned exactly when it is
/// declared and not observed.
pub proof fn lemma_clones(observed: Seq<Seq<char>>, declared: Seq<RepoView>, name: Seq<char>)
    ensures
        names(clones(observed, declared, false)).contains(name) <==> declares(declared, name)
            && !observed.contains(name),
{
    let pred = missing(observed);
    let out = declared.filter(pred);
    let ns = names(out);
    lemma_declares(declared, name);
    if ns.contains(name) {
        let j = choose|j: int| 0 <= j < ns.len() && ns[j] == name;
        declared.lemma_filter_pred(pred, j);
        assert(out.contains(out[j]));
        declared.lemma_filter_contains_rev(pred, out[j]);
        let k = choose|k: int| 0 <= k < declared.len() && declared[k] == out[j];
        assert(declared[k].name == name);
    }
    if declares(declared, name) && !observed.contains(name) {
        let k = choose|k: int| 0 <= k < declared.len() && (#[trigger] declared[k]).name == name;
        declared.lemma_filter_contains(pred, k);
        let j = choose|j: int| 0 <= j < out.len() && out[j] == declared[k];
        assert(ns[j] == name);
    }
}

/// What is removed and what is cloned never meet: nothing is both observed
/// but undeclared and declared but unobserved.
pub proof fn lemma_plan_is_disjoint(
    observed: Seq<Seq<char>>,
    declared: Seq<RepoView>,
    clean_only: bool,
    path: Seq<char>,
)
    ensures
        !(removals(observed, declared).contains(path) && names(
            clones(observed, declared, clean_only),
        ).contains(path)),
{
    lemma_removals(observed, declared, path);
    if clean_only {
        assert(names(clones(observed, declared, clean_only)) =~= Seq::<Seq<char>>::empty());
    } else {
        lemma_clones(observed, declared, path);
    }
}

/// Unless the run is clean-only, the plan is the difference between what is
/// declared and what is observed: a path is in one of its two parts exactly
/// when it is declared or observed but not both.
pub proof fn lemma_plan_is_the_difference(
    observed: Seq<Seq<char>>,
    declared: Seq<RepoView>,
    path: Seq<char>,
)
    ensures
        (removals(observed, declared).contains(path) || names(
            clones(observed, declared, false),
        ).contains(path)) <==> (observed.contains(path) != declares(declared, path)),
{
    lemma_removals(observed, declared, path);
    lemma_clones(observed, declared, path);
}

/// Records picked out of a list with distinct names have distinct names.
proof fn lemma_filter_keeps_names_distinct(s: Seq<RepoView>, pred: spec_fn(RepoView) -> bool)
    requires
        distinct_names(s),
    ensures
        distinct_names(s.filter(pred)),
    decreases s.len(),
{
    reveal(Seq::filter);
    if s.len() > 0 {
        let rest = s.drop_last();
        assert forall|i: int, j: int| 0 <= i < j < rest.len() implies (#[trigger] rest[i]).name
            != (#[trigger] rest[j]).name by {
            assert(rest[i] == s[i]);
            assert(rest[j] == s[j]);
        }
        lemma_filter_keeps_names_distinct(rest, pred);
        let kept = rest.filter(pred);
        let out = s.filter(pred);
        if pred(s.last()) {
            assert forall|i: int, j: int| 0 <= i < j < out.len() implies (#[trigger] out[i]).name
                != (#[trigger] out[j]).name by {
                if j < kept.len() {
                    assert(out[i] == kept[i]);
                    assert(out[j] == kept[j]);
                } else {
                    assert(out[i] == kept[i]);
                    assert(kept.contains(kept[i]));
                    rest.lemma_filter_contains_rev(pred, kept[i]);
                    let k = choose|k: int| 0 <= k < rest.len() && rest[k] == kept[i];
                    assert(s[k] == rest[k]);
                    assert(s[s.len() - 1] == out[j]);
                }
            }
        }
    }
}

/// Of repositories declared under distinct names none is cloned twice.
pub proof fn lemma_no_clone_twice(
    observed: Seq<Seq<char>>,
    declared: Seq<RepoView>,
    clean_only: bool,
)
    requires
        distinct_names(declared),
    ensures
        distinct_names(clones(observed, declared, clean_only)),
{
    if !clean_only {
        lemma_filter_keeps_names_distinct(declared, missing(observed));
    }
}

/// A declared repository whose checkout is there is left alone, pinned or
/// not: it is neither removed nor cloned.
pub proof fn lemma_declared_and_present_is_untouched(
    observed: Seq<Seq<char>>,
    declared: Seq<RepoView>,
    clean_only: bool,
    name: Seq<char>,
)
    requires
        declares(declared, name),
        observed.contains(name),
    ensures
        !removals(observed, declared).contains(name),
        !names(clones(observed, declared, clean_only)).contains(name),
{
    lemma_removals(observed, declared, name);
    if clean_only {
        assert(names(clones(observed, declared, clean_only)) =~= Seq::<Seq<char>>::empty());
    } else {
        lemma_clones(observed, declared, name);
    }
}

/// A clean-only run clones nothing, whatever is declared and whatever is
/// missing.
pub proof fn lemma_clean_only_clones_nothing(observed: Seq<Seq<char>>, declared: Seq<RepoView>)
    ensures
        clones(observed, declared, true).len() == 0,
{
}

/// Whether the checkout of `repo` is among `observed`.
pub fn is_observed(observed: &Vec<String>, repo: &Repo) -> (r: bool)
    ensures
        r == texts(observed@).contains(repo@.name),
{
    let mut i: usize = 0;
    while i < observed.len()
        invariant
            i <= observed.len(),
            forall|k: int| 0 <= k < i ==> (#[trigger] texts(observed@)[k]) != repo@.name,
        decreases observed.len() - i,
    {
        if repo.has_name(&observed[i]) {
            assert(texts(observed@)[i as int] == repo@.name);
            return true;
        }
        i = i + 1;
    }
    false
}

/// Compares the checkouts found on disk with the declared repositories.
/// What is on disk and not declared is to be removed; what is declared and
/// not on disk is to be cloned, unless the run is clean-only.
pub fn plan(observed: &Vec<String>, declared: &Vec<Repo>, clean_only: bool) -> (p: Plan)
    ensures
        texts(p.to_remove@) == removals(texts(observed@), views(declared@)),
        views(p.to_clone@) == clones(texts(observed@), views(declared@), clean_only),
{
    let ghost obs = texts(observed@);
    let ghost decl = views(declared@);
    let mut to_remove: Vec<String> = Vec::new();
    let mut to_clone: Vec<Repo> = Vec::new();
    proof {
        reveal(Seq::filter);
        assert(obs.take(0) =~= Seq::<Seq<char>>::empty());
        assert(decl.take(0) =~= Seq::<RepoView>::empty());
        assert(texts(to_remove@) =~= Seq::<Seq<char>>::empty());
        assert(views(to_clone@) =~= Seq::<RepoView>::empty());
    }
    let mut i: usize = 0;
    while i < observed.len()
        invariant
            obs == texts(observed@),
            decl == views(declared@),
            i <= observed.len(),
            texts(to_remove@) == obs.take(i as int).filter(undeclared(decl)),
        decreases observed.len() - i,
    {
        proof {
            reveal(Seq::filter);
            assert(obs.take(i + 1).drop_last() =~= obs.take(i as int));
            assert(obs.take(i + 1).last() == observed[i as int]@);
        }
        if position(declared, &observed[i]) >= declared.len() {
            let ghost before = texts(to_remove@);
            to_remove.push(observed[i].clone());
            assert(texts(to_remove@) =~= before.push(observed[i as int]@));
        }
        i = i + 1;
    }
    assert(obs.take(observed.len() as int) =~= obs);
    if clean_only {
        return Plan { to_remove, to_clone };
    }
    let mut j: usize = 0;
    while j < declared.len()
        invariant
            obs == texts(observed@),
            decl == views(declared@),
            j <= declared.len(),
            views(to_clone@) == decl.take(j as int).filter(missing(obs)),
        decreases declared.len() - j,
    {
        proof {
            reveal(Seq::filter);
            assert(decl.take(j + 1).drop_last() =~= decl.take(j as int));
            assert(decl.take(j + 1).last() == declared[j as int]@);
        }
        if !is_observed(observed, &declared[j]) {
            let ghost before = views(to_clone@);
            to_clone.push(declared[j].clone());
            assert(views(to_clone@) =~= before.push(declared[j as int]@));
        }
        j = j + 1;
    }
    assert(decl.take(declared.len() as int) =~= decl);
    Plan { to_remove, to_clone }
}

} // verus!
