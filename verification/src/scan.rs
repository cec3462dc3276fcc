//! What a walk of the root directory found, and which of it is a checkout.
use crate::name::{is_three_deep, lemma_three_deep_shape, three_deep};
use crate::path::{joined, lemma_joined_is_below};
use crate::seqs::{first_where, lemma_first_where_is, texts};
use vstd::prelude::*;

verus! {

/// What the walk met at one path.
#[derive(Clone, Copy, Debug, PartialEq, Eq, Structural)]
pub enum EntryKind {
    /// A directory.
    Directory,
    /// A file, a link, or anything else that is no directory.
    Other,
    /// Something that could not be read; the walk cannot be relied on.
    Unreadable,
}

/// One entry of a walk: its path below the root, with `/` between the
/// components, and what stands there. For an unreadable entry the text says
/// what went wrong.
#[derive(Debug, PartialEq, Eq)]
pub struct Entry {
    pub path: String,
    pub kind: EntryKind,
}

/// An entry, as plain values.
pub struct EntryView {
    pub path: Seq<char>,
    pub kind: EntryKind,
}

impl View for Entry {
    type V = EntryView;

    open spec fn view(&self) -> EntryView {
        EntryView { path: self.path@, kind: self.kind }
    }
}

/// The walk failed: what could not be read.
#[derive(Clone, Debug, PartialEq, Eq)]
pub struct ScanError {
    pub detail: String,
}

/// The entries of a list, as plain values.
pub open spec fn entries(items: Seq<Entry>) -> Seq<EntryView> {
    Seq::new(items.len(), |i: int| items[i]@)
}

/// The entries that could not be read.
pub open spec fn unreadable() -> spec_fn(EntryView) -> bool {
    |e: EntryView| e.kind == EntryKind::Unreadable
}

/// A checkout is a directory exactly three components below the root.
pub open spec fn is_checkout(e: EntryView) -> bool {
    e.kind == EntryKind::Directory && three_deep(e.path)
}

/// The paths of the checkouts among `items`, in the order of the walk.
pub open spec fn checkouts(items: Seq<EntryView>) -> Seq<Seq<char>>
    decreases items.len(),
{
    if items.len() == 0 {
        Seq::empty()
    } else if is_checkout(items.last()) {
        checkouts(items.drop_last()).push(items.last().path)
    } else {
        checkouts(items.drop_last())
    }
}

/// The checkouts are the paths of the directories three components deep,
/// and nothing else.
pub proof fn lemma_checkouts(items: Seq<EntryView>, path: Seq<char>)
    ensures
        checkouts(items).contains(path) <==> exists|k: int|
            0 <= k < items.len() && is_checkout(#[trigger] items[k]) && items[k].path == path,
    decreases items.len(),
{
    if items.len() > 0 {
        let rest = items.drop_last();
        lemma_checkouts(rest, path);
        let got = checkouts(items);
        if got.contains(path) {
            let j = choose|j: int| 0 <= j < got.len() && got[j] == path;
            if is_checkout(items.last()) && j == got.len() - 1 {
                assert(is_checkout(items[items.len() - 1]));
            } else {
                assert(checkouts(rest)[j] == path);
                let k = choose|k: int|
                    0 <= k < rest.len() && is_checkout(#[trigger] rest[k]) && rest[k].path == path;
                assert(items[k] == rest[k]);
            }
        }
        if exists|k: int|
            0 <= k < items.len() && is_checkout(#[trigger] items[k]) && items[k].path == path {
            let k = choose|k: int|
                0 <= k < items.len() && is_checkout(#[trigger] items[k]) && items[k].path == path;
            if k < rest.len() {
                assert(rest[k] == items[k]);
                let j = choose|j: int| 0 <= j < checkouts(rest).len() && checkouts(rest)[j] == path;
                assert(got[j] == path);
            } else {
                assert(got[got.len() - 1] == path);
            }
        }
    }
}

/// A checkout that the scan found lies below the root: its path adjoined to
/// the root begins with the root and ends with the path.
pub proof fn lemma_checkout_is_below_root(
    root: Seq<char>,
    items: Seq<EntryView>,
    path: Seq<char>,
)
    requires
        checkouts(items).contains(path),
    ensures
        three_deep(path),
        root.is_prefix_of(joined(root, path)),
        path.is_suffix_of(joined(root, path)),
{
    lemma_checkouts(items, path);
    lemma_three_deep_shape(path);
    lemma_joined_is_below(root, path);
}

/// Reads the result of a walk. If any entry could not be read the scan
/// fails, with the text of the first such entry: a partial walk is of no
/// use. Otherwise it yields the checkouts, in the order of the walk.
pub fn scan(items: &Vec<Entry>) -> (r: Result<Vec<String>, ScanError>)
    ensures
        first_where(entries(items@), unreadable()) < items.len() ==> r is Err && r->Err_0.detail@
            == items[first_where(entries(items@), unreadable())].path@,
        first_where(entries(items@), unreadable()) >= items.len() ==> r is Ok && texts(r->Ok_0@)
            == checkouts(entries(items@)),
{
    let ghost all = entries(items@);
    let mut found: Vec<String> = Vec::new();
    let mut i: usize = 0;
    proof {
        assert(all.take(0) =~= Seq::<EntryView>::empty());
        assert(texts(found@) =~= Seq::<Seq<char>>::empty());
    }
    while i < items.len()
        invariant
            all == entries(items@),
            i <= items.len(),
            forall|k: int| 0 <= k < i ==> !unreadable()(#[trigger] all[k]),
            texts(found@) == checkouts(all.take(i as int)),
        decreases items.len() - i,
    {
        let item = &items[i];
        proof {
            assert(all.take(i + 1).drop_last() =~= all.take(i as int));
            assert(all.take(i + 1).last() == item@);
        }
        match item.kind {
            EntryKind::Unreadable => {
                proof {
                    lemma_first_where_is(all, unreadable(), i as int);
                }
                return Err(ScanError { detail: item.path.clone() });
            },
            EntryKind::Directory => {
                if is_three_deep(item.path.as_str()) {
                    let ghost before = texts(found@);
                    found.push(item.path.clone());
                    assert(texts(found@) =~= before.push(item.path@));
                }
            },
            EntryKind::Other => {},
        }
        i = i + 1;
    }
    proof {
        lemma_first_where_is(all, unreadable(), items.len() as int);
        assert(all.take(items.len() as int) =~= all);
    }
    Ok(found)
}

} // verus!
