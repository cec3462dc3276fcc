//! Paths as text, with `/` between their components.
use vstd::prelude::*;

verus! {

/// `rel` adjoined to `base`. An absolute `rel` replaces `base`; otherwise one
/// slash stands between the two, unless `base` is empty or ends in one.
pub open spec fn joined(base: Seq<char>, rel: Seq<char>) -> Seq<char> {
    if rel.len() > 0 && rel[0] == '/' {
        rel
    } else if base.len() == 0 || base.last() == '/' {
        base + rel
    } else {
        base + seq!['/'] + rel
    }
}

/// A path that is not empty and not absolute, adjoined to `base`, lies
/// below `base`.
pub proof fn lemma_joined_is_below(base: Seq<char>, rel: Seq<char>)
    requires
        rel.len() > 0,
        rel[0] != '/',
    ensures
        base.is_prefix_of(joined(base, rel)),
        rel.is_suffix_of(joined(base, rel)),
{
    let whole = joined(base, rel);
    assert(whole.subrange(0, base.len() as int) =~= base);
    assert(whole.subrange(whole.len() - rel.len(), whole.len() as int) =~= rel);
}

/// Adjoins `rel` to `base`.
pub fn join(base: &str, rel: &str) -> (r: String)
    ensures
        r@ == joined(base@, rel@),
{
    let rel_len: usize = rel.unicode_len();
    if rel_len > 0 && rel.get_char(0) == '/' {
        return rel.to_owned();
    }
    let base_len: usize = base.unicode_len();
    let mut out = base.to_owned();
    if base_len > 0 && base.get_char(base_len - 1) != '/' {
        out.append("/");
        proof {
            reveal_strlit("/");
            assert("/"@ =~= seq!['/']);
        }
    }
    out.append(rel);
    out
}

} // verus!
