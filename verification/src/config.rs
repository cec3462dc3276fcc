//! The declared state: where the checkouts live, and which repositories
//! should exist there.
use crate::name::{url_of, valid_name, InvalidNameError};
use crate::path::{join, joined};
use crate::repo::{Repo, RepoView};
use crate::seqs::{first_where, lemma_first_where, lemma_first_where_is};
use vstd::prelude::*;

verus! {

/// The version written into every configuration.
pub const CONFIG_VERSION: &'static str = "v1beta";

/// The records of a list, as plain values.
pub open spec fn views(repos: Seq<Repo>) -> Seq<RepoView> {
    Seq::new(repos.len(), |i: int| repos[i]@)
}

/// The records named `name`.
pub open spec fn named(name: Seq<char>) -> spec_fn(RepoView) -> bool {
    |r: RepoView| r.name == name
}

/// The place of the first record named `name`, or the list's length where
/// there is none.
pub open spec fn first_named(s: Seq<RepoView>, name: Seq<char>) -> int {
    first_where(s, named(name))
}

/// Some record of the list is named `name`.
pub open spec fn declares(s: Seq<RepoView>, name: Seq<char>) -> bool {
    first_named(s, name) < s.len()
}

/// The list with `r` in the place of the first record of its name, or at the
/// end where no record has that name.
pub open spec fn upsert(s: Seq<RepoView>, r: RepoView) -> Seq<RepoView> {
    let i = first_named(s, r.name);
    if i < s.len() {
        s.update(i, r)
    } else {
        s.push(r)
    }
}

/// The list without the first record named `name`.
pub open spec fn without(s: Seq<RepoView>, name: Seq<char>) -> Seq<RepoView> {
    let i = first_named(s, name);
    if i < s.len() {
        s.remove(i)
    } else {
        s
    }
}

/// No two records of the list have the same name.
pub open spec fn distinct_names(s: Seq<RepoView>) -> bool {
    forall|i: int, j: int| 0 <= i < j < s.len() ==> (#[trigger] s[i]).name != (#[trigger] s[j]).name
}

/// Every record of the list has a valid name, and its URL is the one derived
/// from the name.
pub open spec fn all_named(s: Seq<RepoView>) -> bool {
    forall|i: int|
        0 <= i < s.len() ==> valid_name((#[trigger] s[i]).name) && s[i].url == url_of(s[i].name)
}

/// What holds of the declared repositories: each has a valid name, and no
/// two have the same.
pub open spec fn well_declared(s: Seq<RepoView>) -> bool {
    all_named(s) && distinct_names(s)
}

/// `first_named` is in range, nothing before it has the name, and the record
/// at it, if there is one, has it.
pub proof fn lemma_first_named(s: Seq<RepoView>, name: Seq<char>)
    ensures
        0 <= first_named(s, name) <= s.len(),
        forall|k: int| 0 <= k < first_named(s, name) ==> (#[trigger] s[k]).name != name,
        first_named(s, name) < s.len() ==> s[first_named(s, name)].name == name,
{
    lemma_first_where(s, named(name));
}

/// The place that `lemma_first_named` describes is the only one.
pub proof fn lemma_first_named_is(s: Seq<RepoView>, name: Seq<char>, p: int)
    requires
        0 <= p <= s.len(),
        forall|k: int| 0 <= k < p ==> (#[trigger] s[k]).name != name,
        p < s.len() ==> s[p].name == name,
    ensures
        first_named(s, name) == p,
{
    lemma_first_where_is(s, named(name), p);
}

/// A name is declared exactly when some record of the list has it.
pub proof fn lemma_declares(s: Seq<RepoView>, name: Seq<char>)
    ensures
        declares(s, name) <==> exists|k: int| 0 <= k < s.len() && (#[trigger] s[k]).name == name,
{
    lemma_first_named(s, name);
    if declares(s, name) {
        assert(s[first_named(s, name)].name == name);
    }
}

/// Declaring a repository makes its name declared and leaves every other
/// name as it was; names that were distinct stay distinct.
pub proof fn lemma_upsert(s: Seq<RepoView>, r: RepoView, other: Seq<char>)
    ensures
        declares(upsert(s, r), r.name),
        other != r.name ==> (declares(upsert(s, r), other) <==> declares(s, other)),
        distinct_names(s) ==> distinct_names(upsert(s, r)),
{
    let after = upsert(s, r);
    let i = first_named(s, r.name);
    lemma_first_named(s, r.name);
    lemma_declares(after, r.name);
    lemma_declares(after, other);
    lemma_declares(s, other);
    if i < s.len() {
        assert(after[i].name == r.name);
        if other != r.name {
            if declares(s, other) {
                let k = choose|k: int| 0 <= k < s.len() && (#[trigger] s[k]).name == other;
                assert(after[k].name == other);
            }
            if declares(after, other) {
                let k = choose|k: int| 0 <= k < after.len() && (#[trigger] after[k]).name == other;
                assert(s[k].name == other);
            }
        }
        if distinct_names(s) {
            assert forall|a: int, b: int| 0 <= a < b < after.len() implies (#[trigger] after[a]).name
                != (#[trigger] after[b]).name by {
                assert(after[a].name == s[a].name);
                assert(after[b].name == s[b].name);
            }
        }
    } else {
        assert(after[s.len() as int].name == r.name);
        if other != r.name {
            if declares(s, other) {
                let k = choose|k: int| 0 <= k < s.len() && (#[trigger] s[k]).name == other;
                assert(after[k].name == other);
            }
            if declares(after, other) {
                let k = choose|k: int| 0 <= k < after.len() && (#[trigger] after[k]).name == other;
                assert(s[k].name == other);
            }
        }
        if distinct_names(s) {
            assert forall|a: int, b: int| 0 <= a < b < after.len() implies (#[trigger] after[a]).name
                != (#[trigger] after[b]).name by {
                assert(after[a] == s[a]);
                if b < s.len() {
                    assert(after[b] == s[b]);
                }
            }
        }
    }
}

/// Among distinct names, taking a repository out makes its name undeclared
/// and leaves every other name as it was; the names stay distinct.
pub proof fn lemma_without(s: Seq<RepoView>, name: Seq<char>, other: Seq<char>)
    requires
        distinct_names(s),
    ensures
        !declares(without(s, name), name),
        other != name ==> (declares(without(s, name), other) <==> declares(s, other)),
        distinct_names(without(s, name)),
{
    let after = without(s, name);
    let i = first_named(s, name);
    lemma_first_named(s, name);
    lemma_declares(after, name);
    lemma_declares(after, other);
    lemma_declares(s, other);
    if i < s.len() {
        assert forall|k: int| 0 <= k < after.len() implies (#[trigger] after[k]).name != name by {
            if k < i {
                assert(after[k] == s[k]);
            } else {
                assert(after[k] == s[k + 1]);
            }
        }
        if other != name {
            if declares(s, other) {
                let k = choose|k: int| 0 <= k < s.len() && (#[trigger] s[k]).name == other;
                let k1 = if k < i {
                    k
                } else {
                    k - 1
                };
                assert(after[k1] == s[k]);
            }
            if declares(after, other) {
                let k = choose|k: int| 0 <= k < after.len() && (#[trigger] after[k]).name == other;
                let k0 = if k < i {
                    k
                } else {
                    k + 1
                };
                assert(s[k0] == after[k]);
            }
        }
        assert forall|a: int, b: int| 0 <= a < b < after.len() implies (#[trigger] after[a]).name
            != (#[trigger] after[b]).name by {
            let a0 = if a < i {
                a
            } else {
                a + 1
            };
            let b0 = if b < i {
                b
            } else {
                b + 1
            };
            assert(after[a] == s[a0]);
            assert(after[b] == s[b0]);
        }
    }
}

/// The place of the first record named `name` in `repos`.
pub fn position(repos: &Vec<Repo>, name: &String) -> (p: usize)
    ensures
        p == first_named(views(repos@), name@),
{
    let mut i: usize = 0;
    while i < repos.len() && !repos[i].has_name(name)
        invariant
            i <= repos.len(),
            forall|k: int| 0 <= k < i ==> (#[trigger] views(repos@)[k]).name != name@,
        decreases repos.len() - i,
    {
        i = i + 1;
    }
    proof {
        lemma_first_named_is(views(repos@), name@, i as int);
    }
    i
}

#[derive(Debug, PartialEq, Eq)]
struct Metadata {
    version: String,
    root: String,
    path: String,
}

/// A copy of a list of records.
fn copied(repos: &Vec<Repo>) -> (r: Vec<Repo>)
    ensures
        views(r@) == views(repos@),
{
    let mut out: Vec<Repo> = Vec::new();
    let mut i: usize = 0;
    assert(views(out@) =~= views(repos@).take(0));
    while i < repos.len()
        invariant
            i <= repos.len(),
            views(out@) == views(repos@).take(i as int),
        decreases repos.len() - i,
    {
        let ghost before = views(out@);
        out.push(repos[i].clone());
        assert(views(out@) =~= before.push(repos[i as int]@));
        assert(views(repos@).take(i + 1) =~= before.push(repos[i as int]@));
        i = i + 1;
    }
    assert(views(repos@).take(repos.len() as int) =~= views(repos@));
    out
}

/// Whether every record of `repos` has a name.
pub fn has_names(repos: &Vec<Repo>) -> (r: bool)
    ensures
        r == all_named(views(repos@)),
{
    let mut i: usize = 0;
    while i < repos.len()
        invariant
            i <= repos.len(),
            forall|k: int|
                0 <= k < i ==> valid_name((#[trigger] views(repos@)[k]).name) && views(
                    repos@,
                )[k].url == url_of(views(repos@)[k].name),
        decreases repos.len() - i,
    {
        if !repos[i].is_named() {
            assert(!valid_name(views(repos@)[i as int].name));
            return false;
        }
        i = i + 1;
    }
    true
}

/// Whether no two records of `repos` have the same name.
pub fn has_distinct_names(repos: &Vec<Repo>) -> (r: bool)
    ensures
        r == distinct_names(views(repos@)),
{
    let ghost all = views(repos@);
    let mut j: usize = 0;
    while j < repos.len()
        invariant
            all == views(repos@),
            j <= repos.len(),
            forall|a: int, b: int| 0 <= a < b < j ==> (#[trigger] all[a]).name != (#[trigger] all[b]).name,
        decreases repos.len() - j,
    {
        let mut i: usize = 0;
        while i < j
            invariant
                all == views(repos@),
                i <= j < repos.len(),
                forall|a: int| 0 <= a < i ==> (#[trigger] all[a]).name != all[j as int].name,
            decreases j - i,
        {
            if repos[i].same_name(&repos[j]) {
                assert(all[i as int].name == all[j as int].name);
                return false;
            }
            i = i + 1;
        }
        j = j + 1;
    }
    true
}

/// A configuration, as plain values.
pub struct ConfigView {
    pub version: Seq<char>,
    pub root: Seq<char>,
    pub path: Seq<char>,
    pub repos: Seq<RepoView>,
}

/// The root directory, the path of the configuration file, and the declared
/// repositories in the order in which they were first added. Every declared
/// repository has a valid name, and no two have the same.
#[derive(Debug, PartialEq, Eq)]
pub struct Config {
    metadata: Metadata,
    repos: Vec<Repo>,
}

impl View for Config {
    type V = ConfigView;

    closed spec fn view(&self) -> ConfigView {
        ConfigView {
            version: self.metadata.version@,
            root: self.metadata.root@,
            path: self.metadata.path@,
            repos: views(self.repos@),
        }
    }
}

impl Config {
    #[verifier::type_invariant]
    spec fn inv(&self) -> bool {
        well_declared(views(self.repos@))
    }

    /// A configuration for the root `r`, with no repository declared. Its
    /// file is `c` adjoined to the root. This cannot fail.
    pub fn new(r: String, c: String) -> (cfg: Result<Self, core::convert::Infallible>)
        ensures
            cfg is Ok,
            cfg->Ok_0@ == (ConfigView {
                version: CONFIG_VERSION@,
                root: r@,
                path: joined(r@, c@),
                repos: Seq::<RepoView>::empty(),
            }),
    {
        let p = join(r.as_str(), c.as_str());
        let cfg = Config {
            metadata: Metadata { version: CONFIG_VERSION.to_owned(), root: r, path: p },
            repos: Vec::new(),
        };
        assert(views(cfg.repos@) =~= Seq::<RepoView>::empty());
        Ok(cfg)
    }

    /// A configuration put together from what was stored of it. There is
    /// none where a record has no name or two have the same.
    pub fn restore(version: String, root: String, path: String, repos: Vec<Repo>) -> (cfg: Option<
        Self,
    >)
        ensures
            cfg is Some <==> well_declared(views(repos@)),
            cfg is Some ==> cfg->0@ == (ConfigView {
                version: version@,
                root: root@,
                path: path@,
                repos: views(repos@),
            }),
    {
        if has_names(&repos) && has_distinct_names(&repos) {
            Some(Config { metadata: Metadata { version, root, path }, repos })
        } else {
            None
        }
    }

    /// Declares the repository `repo`, pinned or not, with no commit yet. A
    /// record of the same name is replaced. An invalid name is refused and
    /// leaves the configuration as it was.
    pub fn add(&mut self, repo: String, pin: bool) -> (r: Result<(), InvalidNameError>)
        ensures
            valid_name(repo@) ==> r is Ok && final(self)@ == (ConfigView {
                repos: upsert(
                    old(self)@.repos,
                    RepoView { name: repo@, url: url_of(repo@), pin: pin, sha: Seq::<char>::empty() },
                ),
                ..old(self)@
            }),
            !valid_name(repo@) ==> r is Err && r->Err_0.name@ == repo@ && final(self)@ == old(
                self,
            )@,
            well_declared(final(self)@.repos),
    {
        proof {
            use_type_invariant(&*self);
        }
        let mut binding = Repo::new();
        match binding.name(repo.clone()) {
            Ok(b) => {
                b.pin(pin);
            },
            Err(e) => {
                return Err(e);
            },
        }
        let ghost before = views(self.repos@);
        let ghost record = binding@;
        proof {
            lemma_first_named(before, repo@);
            lemma_upsert(before, record, repo@);
        }
        let i = position(&self.repos, &repo);
        let mut repos = copied(&self.repos);
        if i < repos.len() {
            repos.set(i, binding);
            assert(views(repos@) =~= before.update(i as int, record));
        } else {
            repos.push(binding);
            assert(views(repos@) =~= before.push(record));
        }
        self.repos = repos;
        Ok(())
    }

    /// Takes the repository `repo` out of the declared ones, if it is there.
    /// This cannot fail.
    pub fn remove(&mut self, repo: String) -> (r: Result<(), core::convert::Infallible>)
        ensures
            r is Ok,
            final(self)@ == (ConfigView { repos: without(old(self)@.repos, repo@), ..old(self)@ }),
            !declares(final(self)@.repos, repo@),
            well_declared(final(self)@.repos),
    {
        let ghost before = views(self.repos@);
        proof {
            use_type_invariant(&*self);
            lemma_first_named(before, repo@);
            lemma_without(before, repo@, repo@);
        }
        let i = position(&self.repos, &repo);
        if i < self.repos.len() {
            let mut repos = copied(&self.repos);
            repos.remove(i);
            assert(views(repos@) =~= before.remove(i as int));
            self.repos = repos;
        }
        Ok(())
    }

    /// The version of the configuration.
    pub fn version(&self) -> (r: String)
        ensures
            r@ == self@.version,
    {
        self.metadata.version.clone()
    }

    /// The root directory under which the checkouts live.
    pub fn root(&self) -> (r: String)
        ensures
            r@ == self@.root,
    {
        self.metadata.root.clone()
    }

    /// The path of the configuration file.
    pub fn path(&self) -> (r: String)
        ensures
            r@ == self@.path,
    {
        self.metadata.path.clone()
    }

    /// The declared repositories, in the order in which they were first
    /// added.
    pub fn repos(&self) -> (r: &Vec<Repo>)
        ensures
            views(r@) == self@.repos,
            well_declared(self@.repos),
    {
        proof {
            use_type_invariant(self);
        }
        &self.repos
    }

    /// Changes the declared repositories: `repos` takes the place of the
    /// list, whole. A list in which a record has no name or two have the
    /// same is refused and changes nothing. To change records in place, take a copy
    /// of the list, change it, and hand it in here.
    pub fn repos_mut(&mut self, repos: Vec<Repo>) -> (r: bool)
        ensures
            r == well_declared(views(repos@)),
            r ==> final(self)@ == (ConfigView { repos: views(repos@), ..old(self)@ }),
            !r ==> final(self)@ == old(self)@,
    {
        if has_names(&repos) && has_distinct_names(&repos) {
            self.repos = repos;
            true
        } else {
            false
        }
    }
}

} // verus!
