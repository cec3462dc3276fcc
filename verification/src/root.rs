//! The root directory under which the checkouts live.
use crate::credentials::{default_key_under, DEFAULT_KEY};
use crate::path::{join, joined};
use vstd::prelude::*;

verus! {

/// The directory below the home directory that is the root by default.
pub const ROOT_DEFAULT: &'static str = "src";

/// The user's home directory, as `home::home_dir` finds it in the
/// environment, as text; none also where it is not valid UTF-8. Nothing is
/// claimed of the result: it may be absent, and it may differ from one call
/// to the next.
#[verifier::external_body]
fn home_directory() -> (r: Option<String>) {
    home::home_dir().and_then(|h| h.into_os_string().into_string().ok())
}

/// The root: the explicit one if there is one, else the one that the
/// environment names in its place, else `src` below the home directory;
/// none where none of the three is known.
pub open spec fn root_under(
    explicit: Option<String>,
    named: Option<String>,
    home: Option<String>,
) -> Option<Seq<char>> {
    match (explicit, named, home) {
        (Some(r), _, _) => Some(r@),
        (None, Some(r), _) => Some(r@),
        (None, None, Some(h)) => Some(joined(h@, ROOT_DEFAULT@)),
        (None, None, None) => None,
    }
}

/// The text of an optional string.
pub open spec fn text_of(s: Option<String>) -> Option<Seq<char>> {
    match s {
        Some(t) => Some(t@),
        None => None,
    }
}

/// Picks the root: `explicit` if it is given, else `named`, else `src` below
/// `home`.
pub fn root_from(explicit: Option<String>, named: Option<String>, home: Option<String>) -> (r:
    Option<String>)
    ensures
        text_of(r) == root_under(explicit, named, home),
{
    match (explicit, named, home) {
        (Some(r), _, _) => Some(r),
        (None, Some(r), _) => Some(r),
        (None, None, Some(h)) => Some(join(h.as_str(), ROOT_DEFAULT)),
        (None, None, None) => None,
    }
}

/// Picks the root: `explicit` if it is given, else `named`, which is what
/// the environment names in its place, else `src` below the user's home
/// directory. There is none where neither is given and the home directory
/// cannot be found.
pub fn root(explicit: Option<String>, named: Option<String>) -> (r: Option<String>)
    ensures
        explicit is Some ==> text_of(r) == text_of(explicit),
        explicit is None && named is Some ==> text_of(r) == text_of(named),
        explicit is None && named is None ==> exists|home: Option<String>|
            text_of(r) == root_under(explicit, named, home),
{
    if explicit.is_some() || named.is_some() {
        root_from(explicit, named, None)
    } else {
        let home = home_directory();
        let r = root_from(None, None, home);
        assert(text_of(r) == root_under(explicit, named, home));
        r
    }
}

/// The path of the default private key below the user's home directory;
/// none where the home directory cannot be found.
pub fn default_key() -> (r: Option<String>)
    ensures
        r is Some ==> exists|home: Seq<char>| r->0@ == joined(home, DEFAULT_KEY@),
{
    let home = home_directory();
    let r = default_key_from(home);
    proof {
        if r is Some {
            assert(r->0@ == joined(home->0@, DEFAULT_KEY@));
        }
    }
    r
}

/// The path of the default private key given the home directory: the key
/// below it, or none where there is no home directory.
pub open spec fn default_key_of(home: Option<String>) -> Option<Seq<char>> {
    match home {
        Some(h) => Some(joined(h@, DEFAULT_KEY@)),
        None => None,
    }
}

/// The path of the default private key below `home`; none where `home` is
/// none.
pub fn default_key_from(home: Option<String>) -> (r: Option<String>)
    ensures
        text_of(r) == default_key_of(home),
{
    match home {
        Some(h) => Some(default_key_under(h.as_str())),
        None => None,
    }
}

} // verus!
