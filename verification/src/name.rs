//! Repository names: validation, and the clone URL derived from a name.
use vstd::prelude::*;

verus! {

/// The pieces of `s` between slashes, as `str::split('/')` yields them: the
/// empty string has one empty piece, and a trailing slash opens an empty piece.
pub open spec fn segments(s: Seq<char>) -> Seq<Seq<char>>
    decreases s.len(),
{
    if s.len() == 0 {
        seq![Seq::<char>::empty()]
    } else {
        let before = segments(s.drop_last());
        if s.last() == '/' {
            before.push(Seq::<char>::empty())
        } else {
            before.drop_last().push(before.last().push(s.last()))
        }
    }
}

/// `s` holds a character that a name may not hold: `:` or `@`.
pub open spec fn has_mark(s: Seq<char>) -> bool {
    s.contains(':') || s.contains('@')
}

/// `s` has exactly three pieces, none of them empty: `<host>/<org>/<repo>`.
pub open spec fn three_deep(s: Seq<char>) -> bool {
    &&& segments(s).len() == 3
    &&& segments(s)[0].len() > 0
    &&& segments(s)[1].len() > 0
    &&& segments(s)[2].len() > 0
}

/// A name is valid when it has exactly three pieces, none of them empty, and
/// holds neither `:` nor `@`.
pub open spec fn valid_name(s: Seq<char>) -> bool {
    three_deep(s) && !has_mark(s)
}

/// The SSH clone URL made of three pieces: `git@<host>:<org>/<repo>.git`.
pub open spec fn ssh_url(host: Seq<char>, org: Seq<char>, repo: Seq<char>) -> Seq<char> {
    seq!['g', 'i', 't', '@'] + host + seq![':'] + org + seq!['/'] + repo + seq!['.', 'g', 'i', 't']
}

/// The clone URL of a name: its three pieces put into `ssh_url`.
pub open spec fn url_of(s: Seq<char>) -> Seq<char>
    recommends
        segments(s).len() == 3,
{
    ssh_url(segments(s)[0], segments(s)[1], segments(s)[2])
}

/// What a valid name resolves to.
#[derive(Clone, Debug, PartialEq, Eq)]
pub struct Resolved {
    pub url: String,
    pub relative_path: String,
}

/// The error for a name that is not of the form `<host>/<org>/<repo>`.
#[derive(Clone, Debug, PartialEq, Eq)]
pub struct InvalidNameError {
    pub name: String,
}

impl InvalidNameError {
    /// The text shown to the user for this error.
    pub fn message(&self) -> (r: String)
        ensures
            r@ == "Invalid repo name: name should be of the format <host>/<org>/<repo>"@,
    {
        "Invalid repo name: name should be of the format <host>/<org>/<repo>".to_owned()
    }
}

proof fn lemma_segments_nonempty(s: Seq<char>)
    ensures
        segments(s).len() >= 1,
    decreases s.len(),
{
    if s.len() > 0 {
        lemma_segments_nonempty(s.drop_last());
    }
}

/// One more character: what it does to the pieces.
proof fn lemma_segments_step(s: Seq<char>, i: int)
    requires
        0 <= i < s.len(),
    ensures
        segments(s.take(i)).len() >= 1,
        s[i] == '/' ==> segments(s.take(i + 1)) == segments(s.take(i)).push(Seq::<char>::empty()),
        s[i] != '/' ==> segments(s.take(i + 1)) == segments(s.take(i)).drop_last().push(
            segments(s.take(i)).last().push(s[i]),
        ),
{
    lemma_segments_nonempty(s.take(i));
    assert(s.take(i + 1).drop_last() =~= s.take(i));
    assert(s.take(i + 1).last() == s[i]);
}

proof fn lemma_mark_step(s: Seq<char>, i: int)
    requires
        0 <= i < s.len(),
    ensures
        has_mark(s.take(i + 1)) == (has_mark(s.take(i)) || s[i] == ':' || s[i] == '@'),
{
    let a = s.take(i);
    let b = s.take(i + 1);
    assert(b.drop_last() =~= a);
    assert forall|c: char| b.contains(c) == (a.contains(c) || s[i] == c) by {
        if a.contains(c) {
            let k = choose|k: int| 0 <= k < a.len() && a[k] == c;
            assert(b[k] == c);
        }
        if s[i] == c {
            assert(b[i] == c);
        }
        if b.contains(c) {
            let k = choose|k: int| 0 <= k < b.len() && b[k] == c;
            if k < i {
                assert(a[k] == c);
            }
        }
    }
}

/// A text without a slash is one piece.
proof fn lemma_segments_plain(s: Seq<char>)
    requires
        !s.contains('/'),
    ensures
        segments(s) == seq![s],
    decreases s.len(),
{
    if s.len() == 0 {
        assert(s =~= Seq::<char>::empty());
    } else {
        let t = s.drop_last();
        assert forall|k: int| 0 <= k < t.len() implies t[k] != '/' by {
            assert(s[k] == t[k]);
        }
        lemma_segments_plain(t);
        assert(s.last() == s[s.len() - 1]);
        assert(seq![t].drop_last().push(t.push(s.last())) =~= seq![s]) by {
            assert(t.push(s.last()) =~= s);
        }
    }
}

/// A slash and a text without a slash, put behind `a`, add one piece.
proof fn lemma_segments_append(a: Seq<char>, b: Seq<char>)
    requires
        !b.contains('/'),
    ensures
        segments(a + seq!['/'] + b) == segments(a).push(b),
    decreases b.len(),
{
    let whole = a + seq!['/'] + b;
    if b.len() == 0 {
        assert(whole.drop_last() =~= a);
        assert(whole.last() == '/');
        assert(b =~= Seq::<char>::empty());
    } else {
        let t = b.drop_last();
        assert forall|k: int| 0 <= k < t.len() implies t[k] != '/' by {
            assert(b[k] == t[k]);
        }
        lemma_segments_append(a, t);
        assert(whole.drop_last() =~= a + seq!['/'] + t);
        assert(whole.last() == b.last());
        assert(b.last() == b[b.len() - 1]);
        assert(t.push(b.last()) =~= b);
        assert(segments(a).push(t).drop_last() =~= segments(a));
    }
}

/// Three pieces that are not empty and hold no `/`, `:` or `@`, joined by
/// slashes, are a valid name, and its clone URL is
/// `git@<host>:<org>/<repo>.git`.
pub proof fn lemma_three_pieces_resolve(host: Seq<char>, org: Seq<char>, repo: Seq<char>)
    requires
        host.len() > 0 && !host.contains('/') && !has_mark(host),
        org.len() > 0 && !org.contains('/') && !has_mark(org),
        repo.len() > 0 && !repo.contains('/') && !has_mark(repo),
    ensures
        segments(host + seq!['/'] + org + seq!['/'] + repo) == seq![host, org, repo],
        valid_name(host + seq!['/'] + org + seq!['/'] + repo),
        url_of(host + seq!['/'] + org + seq!['/'] + repo) == ssh_url(host, org, repo),
{
    let name = host + seq!['/'] + org + seq!['/'] + repo;
    lemma_segments_plain(host);
    lemma_segments_append(host, org);
    lemma_segments_append(host + seq!['/'] + org, repo);
    assert(seq![host].push(org).push(repo) =~= seq![host, org, repo]);
    assert forall|k: int| 0 <= k < name.len() implies name[k] != ':' && name[k] != '@' by {
        if k < host.len() {
            assert(name[k] == host[k]);
        } else if k == host.len() {
        } else if k < host.len() + 1 + org.len() {
            assert(name[k] == org[k - host.len() - 1]);
        } else if k == host.len() + 1 + org.len() {
        } else {
            assert(name[k] == repo[k - host.len() - org.len() - 2]);
        }
    }
}

/// The pieces put together again, with a slash between each two.
pub open spec fn glued(pieces: Seq<Seq<char>>) -> Seq<char>
    decreases pieces.len(),
{
    if pieces.len() == 0 {
        Seq::empty()
    } else if pieces.len() == 1 {
        pieces[0]
    } else {
        glued(pieces.drop_last()) + seq!['/'] + pieces.last()
    }
}

/// Splitting loses nothing: no piece holds a slash, and the pieces glued
/// together are the text.
pub proof fn lemma_glued_segments(s: Seq<char>)
    ensures
        segments(s).len() >= 1,
        glued(segments(s)) == s,
        forall|i: int| 0 <= i < segments(s).len() ==> !(#[trigger] segments(s)[i]).contains('/'),
    decreases s.len(),
{
    if s.len() > 0 {
        let t = s.drop_last();
        let c = s.last();
        let before = segments(t);
        let after = segments(s);
        lemma_glued_segments(t);
        assert(t.push(c) =~= s);
        if c == '/' {
            assert(after.drop_last() =~= before);
            assert(glued(after) =~= s);
            assert forall|i: int| 0 <= i < after.len() implies !(#[trigger] after[i]).contains(
                '/',
            ) by {
                if i < before.len() {
                    assert(after[i] == before[i]);
                }
            }
        } else {
            let grown = before.last().push(c);
            assert(after.last() == grown);
            assert(after.drop_last() =~= before.drop_last());
            if before.len() == 1 {
                assert(glued(after) =~= s);
            } else {
                assert(glued(after) =~= glued(before).push(c));
            }
            assert forall|i: int| 0 <= i < after.len() implies !(#[trigger] after[i]).contains(
                '/',
            ) by {
                if i < before.len() - 1 {
                    assert(after[i] == before[i]);
                } else {
                    assert(!before[before.len() - 1].contains('/'));
                    if grown.contains('/') {
                        let k = choose|k: int| 0 <= k < grown.len() && grown[k] == '/';
                        assert(before.last()[k] == '/');
                    }
                }
            }
        }
    } else {
        assert(segments(s)[0] =~= Seq::<char>::empty());
    }
}

/// A text of three pieces is its pieces with two slashes between them, and
/// it begins with a character of its first piece, which is no slash.
pub proof fn lemma_three_deep_shape(s: Seq<char>)
    requires
        three_deep(s),
    ensures
        s == segments(s)[0] + seq!['/'] + segments(s)[1] + seq!['/'] + segments(s)[2],
        forall|i: int| 0 <= i < 3 ==> !(#[trigger] segments(s)[i]).contains('/'),
        s.len() > 0 && s[0] != '/',
{
    lemma_glued_segments(s);
    let p = segments(s);
    let two = p.drop_last();
    let one = two.drop_last();
    assert(glued(one) == p[0]);
    assert(glued(two) == p[0] + seq!['/'] + p[1]);
    assert(s[0] == p[0][0]);
}

/// Every valid name is of the form `<host>/<org>/<repo>`: three pieces
/// that are not empty and hold no `/`, `:` or `@`, with a slash between
/// each two.
pub proof fn lemma_valid_name_is_three_pieces(s: Seq<char>)
    requires
        valid_name(s),
    ensures
        s == segments(s)[0] + seq!['/'] + segments(s)[1] + seq!['/'] + segments(s)[2],
        forall|i: int|
            0 <= i < 3 ==> (#[trigger] segments(s)[i]).len() > 0 && !segments(s)[i].contains('/')
                && !has_mark(segments(s)[i]),
{
    lemma_three_deep_shape(s);
    let a = segments(s)[0];
    let b = segments(s)[1];
    let c = segments(s)[2];
    assert forall|i: int| 0 <= i < 3 implies !has_mark(#[trigger] segments(s)[i]) by {
        let piece = segments(s)[i];
        let offset = if i == 0 {
            0
        } else if i == 1 {
            a.len() + 1
        } else {
            a.len() + b.len() + 2
        };
        if has_mark(piece) {
            let k = choose|k: int|
                0 <= k < piece.len() && (piece[k] == ':' || piece[k] == '@');
            assert(s[offset + k] == piece[k]);
        }
    }
}

/// A name with fewer or more than three pieces, or with `:` or `@` in it, is
/// not valid.
pub proof fn lemma_wrong_shape_is_invalid(s: Seq<char>)
    requires
        segments(s).len() != 3 || s.contains(':') || s.contains('@'),
    ensures
        !valid_name(s),
{
}

/// What one pass over a text finds: its length, how many slashes it holds,
/// where the first two of them stand, and whether it holds `:` or `@`.
struct Shape {
    len: usize,
    slashes: usize,
    first: usize,
    second: usize,
    marked: bool,
}

impl Shape {
    /// The shape is that of `s`.
    spec fn of(&self, s: Seq<char>) -> bool {
        &&& self.len == s.len()
        &&& self.slashes + 1 == segments(s).len()
        &&& self.marked == has_mark(s)
        &&& self.slashes == 0 ==> segments(s)[0] == s
        &&& self.slashes >= 1 ==> self.first < self.len && segments(s)[0] == s.subrange(
            0,
            self.first as int,
        )
        &&& self.slashes == 1 ==> segments(s)[1] == s.subrange(self.first + 1, self.len as int)
        &&& self.slashes >= 2 ==> self.first < self.second < self.len && segments(s)[1]
            == s.subrange(self.first + 1, self.second as int)
        &&& self.slashes == 2 ==> segments(s)[2] == s.subrange(self.second + 1, self.len as int)
    }

    /// Three pieces, none of them empty.
    fn three_deep(&self, Ghost(s): Ghost<Seq<char>>) -> (r: bool)
        requires
            self.of(s),
        ensures
            r == three_deep(s),
    {
        self.slashes == 2 && self.first != 0 && self.second != self.first + 1 && self.second + 1
            != self.len
    }
}

fn measure(name: &str) -> (shape: Shape)
    ensures
        shape.of(name@),
{
    let n: usize = name.unicode_len();
    let ghost s = name@;
    let mut i: usize = 0;
    let mut slashes: usize = 0;
    let mut first: usize = 0;
    let mut second: usize = 0;
    let mut marked = false;
    proof {
        assert(s.take(0) =~= Seq::<char>::empty());
        assert(s.subrange(0, 0) =~= Seq::<char>::empty());
    }
    while i < n
        invariant
            s == name@,
            n == s.len(),
            i <= n,
            slashes <= i,
            slashes + 1 == segments(s.take(i as int)).len(),
            marked == has_mark(s.take(i as int)),
            slashes == 0 ==> segments(s.take(i as int))[0] == s.subrange(0, i as int),
            slashes >= 1 ==> first < i && segments(s.take(i as int))[0] == s.subrange(
                0,
                first as int,
            ),
            slashes == 1 ==> segments(s.take(i as int))[1] == s.subrange(first + 1, i as int),
            slashes >= 2 ==> first < second < i && segments(s.take(i as int))[1] == s.subrange(
                first + 1,
                second as int,
            ),
            slashes == 2 ==> segments(s.take(i as int))[2] == s.subrange(second + 1, i as int),
        decreases n - i,
    {
        let c = name.get_char(i);
        proof {
            lemma_segments_step(s, i as int);
            lemma_mark_step(s, i as int);
            if c == '/' {
                assert(s.subrange(i + 1, i + 1) =~= Seq::<char>::empty());
            } else if slashes == 0 {
                assert(s.subrange(0, i as int).push(c) =~= s.subrange(0, i + 1));
            } else if slashes == 1 {
                assert(s.subrange(first + 1, i as int).push(c) =~= s.subrange(first + 1, i + 1));
            } else if slashes == 2 {
                assert(s.subrange(second + 1, i as int).push(c) =~= s.subrange(
                    second + 1,
                    i + 1,
                ));
            }
        }
        if c == '/' {
            if slashes == 0 {
                first = i;
            } else if slashes == 1 {
                second = i;
            }
            slashes = slashes + 1;
        } else if c == ':' || c == '@' {
            marked = true;
        }
        i = i + 1;
    }
    proof {
        assert(s.take(n as int) =~= s);
        assert(s.subrange(0, n as int) =~= s);
    }
    Shape { len: n, slashes, first, second, marked }
}

/// Whether `path` has exactly three components, none of them empty.
pub fn is_three_deep(path: &str) -> (r: bool)
    ensures
        r == three_deep(path@),
{
    let shape = measure(path);
    shape.three_deep(Ghost(path@))
}

/// Validates `name` and derives what it stands for: the clone URL, and the
/// path of the checkout below the root, which is the name itself.
pub fn resolve(name: &str) -> (r: Result<Resolved, InvalidNameError>)
    ensures
        valid_name(name@) ==> r is Ok && r->Ok_0.url@ == url_of(name@) && r->Ok_0.relative_path@
            == name@,
        !valid_name(name@) ==> r is Err && r->Err_0.name@ == name@,
{
    let shape = measure(name);
    if shape.marked || !shape.three_deep(Ghost(name@)) {
        return Err(InvalidNameError { name: name.to_owned() });
    }
    let host = name.substring_char(0, shape.first);
    let org = name.substring_char(shape.first + 1, shape.second);
    let repo = name.substring_char(shape.second + 1, shape.len);
    let mut url = "git@".to_owned();
    url.append(host);
    url.append(":");
    url.append(org);
    url.append("/");
    url.append(repo);
    url.append(".git");
    proof {
        reveal_strlit("git@");
        reveal_strlit(":");
        reveal_strlit("/");
        reveal_strlit(".git");
        assert("git@"@ =~= seq!['g', 'i', 't', '@']);
        assert(":"@ =~= seq![':']);
        assert("/"@ =~= seq!['/']);
        assert(".git"@ =~= seq!['.', 'g', 'i', 't']);
    }
    Ok(Resolved { url, relative_path: name.to_owned() })
}

} // verus!
