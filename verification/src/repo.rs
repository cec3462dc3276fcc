//! One declared repository.
use crate::name::{resolve, segments, url_of, valid_name, InvalidNameError};
use vstd::prelude::*;

verus! {

/// What a `Repo` holds, as plain values.
pub struct RepoView {
    pub name: Seq<char>,
    pub url: Seq<char>,
    pub pin: bool,
    pub sha: Seq<char>,
}

/// A name and the URL kept with it agree: both are empty, as in a record
/// that has no name yet, or the name is valid and the URL is derived from it.
pub open spec fn consistent(name: Seq<char>, url: Seq<char>) -> bool {
    ||| name.len() == 0 && url.len() == 0
    ||| valid_name(name) && url == url_of(name)
}

/// A declared repository: its name, the clone URL derived from the name,
/// whether it is pinned, and the commit it was last seen at.
#[derive(Debug, PartialEq, Eq)]
pub struct Repo {
    name: String,
    url: String,
    pin: bool,
    sha: String,
}

impl View for Repo {
    type V = RepoView;

    closed spec fn view(&self) -> RepoView {
        RepoView { name: self.name@, url: self.url@, pin: self.pin, sha: self.sha@ }
    }
}

impl Clone for Repo {
    fn clone(&self) -> (r: Self)
        ensures
            r@ == self@,
    {
        proof {
            use_type_invariant(self);
        }
        Repo {
            name: self.name.clone(),
            url: self.url.clone(),
            pin: self.pin,
            sha: self.sha.clone(),
        }
    }
}

impl Repo {
    #[verifier::type_invariant]
    spec fn inv(&self) -> bool {
        consistent(self.name@, self.url@)
    }

    /// A record with no name yet, not pinned, with no commit.
    pub fn new() -> (r: Self)
        ensures
            r@ == (RepoView {
                name: Seq::<char>::empty(),
                url: Seq::<char>::empty(),
                pin: false,
                sha: Seq::<char>::empty(),
            }),
    {
        Repo { name: String::new(), url: String::new(), pin: false, sha: String::new() }
    }

    /// Gives the record a name, and with it the URL derived from the name. An
    /// invalid name is refused and leaves the record as it was.
    pub fn name(&mut self, name: String) -> (r: Result<&mut Self, InvalidNameError>)
        ensures
            valid_name(name@) ==> r is Ok && *final(self) == *final(r->Ok_0) && r->Ok_0@ == (
            RepoView { name: name@, url: url_of(name@), ..old(self)@ }),
            !valid_name(name@) ==> r is Err && r->Err_0.name@ == name@ && *final(self) == *old(
                self,
            ),
    {
        self.url(name)
    }

    /// The name, `<host>/<org>/<repo>`; empty in a record that has none yet.
    /// It is also the path of the checkout below the root.
    pub fn get_name(&self) -> (r: &str)
        ensures
            r@ == self@.name,
            consistent(self@.name, self@.url),
    {
        proof {
            use_type_invariant(self);
        }
        self.name.as_str()
    }

    /// Derives the SSH clone URL from a name of the form
    /// `<host>/<org>/<repo>`. The URL is never set apart from the name it
    /// belongs to, so the record takes the name as well. An invalid name is
    /// refused and leaves the record as it was.
    pub fn url(&mut self, name: String) -> (r: Result<&mut Self, InvalidNameError>)
        ensures
            valid_name(name@) ==> r is Ok && *final(self) == *final(r->Ok_0) && r->Ok_0@ == (
            RepoView { name: name@, url: url_of(name@), ..old(self)@ }),
            !valid_name(name@) ==> r is Err && r->Err_0.name@ == name@ && *final(self) == *old(
                self,
            ),
    {
        match resolve(name.as_str()) {
            Ok(resolved) => {
                *self = Repo { name, url: resolved.url, pin: self.pin, sha: self.sha.clone() };
                Ok(self)
            },
            Err(e) => Err(e),
        }
    }

    /// The clone URL, which is the one derived from the name.
    pub fn get_url(&self) -> (r: &str)
        ensures
            r@ == self@.url,
            consistent(self@.name, self@.url),
    {
        proof {
            use_type_invariant(self);
        }
        self.url.as_str()
    }

    /// Whether the record has a name. A name that a record has is valid, and
    /// the record's URL is the one derived from it.
    pub fn is_named(&self) -> (r: bool)
        ensures
            r == valid_name(self@.name),
            r ==> self@.url == url_of(self@.name),
    {
        proof {
            use_type_invariant(self);
            reveal_with_fuel(segments, 2);
        }
        self.name.as_str().unicode_len() > 0
    }

    /// Whether the two records have the same name.
    pub fn same_name(&self, other: &Repo) -> (r: bool)
        ensures
            r == (self@.name == other@.name),
    {
        self.name == other.name
    }

    /// Whether this is the record of `name`.
    pub fn has_name(&self, name: &String) -> (r: bool)
        ensures
            r == (self@.name == name@),
    {
        self.name == *name
    }

    /// Whether the repository is pinned: a pinned checkout is never updated.
    pub fn get_pin(&self) -> (r: bool)
        ensures
            r == self@.pin,
    {
        self.pin
    }

    /// The commit the repository was last seen at; empty before the first
    /// clone.
    pub fn get_sha(&self) -> (r: &str)
        ensures
            r@ == self@.sha,
    {
        self.sha.as_str()
    }

    /// Pins the repository, or lets it go.
    pub fn pin(&mut self, pin: bool) -> (r: &mut Self)
        ensures
            *final(self) == *final(r),
            r@ == (RepoView { pin: pin, ..old(self)@ }),
    {
        proof {
            use_type_invariant(&*self);
        }
        self.pin = pin;
        self
    }

    /// Notes the commit the repository was last seen at.
    pub fn sha(&mut self, sha: String) -> (r: &mut Self)
        ensures
            *final(self) == *final(r),
            r@ == (RepoView { sha: sha@, ..old(self)@ }),
    {
        proof {
            use_type_invariant(&*self);
        }
        self.sha = sha;
        self
    }

    /// A copy of the record, which stays as it is.
    pub fn to_owned(&mut self) -> (r: Self)
        ensures
            r@ == old(self)@,
            *final(self) == *old(self),
    {
        self.clone()
    }
}

} // verus!
