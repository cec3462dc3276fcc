//! The report of a run: one line for each item, saying what became of it.
use crate::seqs::texts;
use vstd::prelude::*;

verus! {

/// Why an item of the run failed.
#[derive(Clone, Copy, Debug, PartialEq, Eq, Structural)]
pub enum FailureKind {
    /// No usable SSH identity was found for the clone.
    Credential,
    /// The transport failed: network, rejected authentication, or a
    /// destination in the way.
    Clone,
    /// The checkout could not be deleted.
    Removal,
}

/// What became of one item of the run.
#[derive(Clone, Copy, Debug, PartialEq, Eq, Structural)]
pub enum Outcome {
    /// The checkout was deleted.
    Removed,
    /// The repository was cloned.
    Cloned,
    /// The destination was already there; nothing was done.
    Skipped,
    /// The checkout holds local changes; it was left in place.
    Kept,
    /// The item failed; the run went on with the next one.
    Failed(FailureKind),
}

/// One line of the report: a path below the root, and what became of it.
#[derive(Clone, Debug, PartialEq, Eq)]
pub struct Record {
    pub path: String,
    pub outcome: Outcome,
}

/// A line of the report, as plain values.
pub struct RecordView {
    pub path: Seq<char>,
    pub outcome: Outcome,
}

impl View for Record {
    type V = RecordView;

    open spec fn view(&self) -> RecordView {
        RecordView { path: self.path@, outcome: self.outcome }
    }
}

/// The lines of a report, as plain values.
pub open spec fn lines(records: Seq<Record>) -> Seq<RecordView> {
    Seq::new(records.len(), |i: int| records[i]@)
}

/// The report has a line that says `outcome` of `path`.
pub open spec fn has_line(records: Seq<RecordView>, path: Seq<char>, outcome: Outcome) -> bool {
    records.contains(RecordView { path, outcome })
}

/// No line of the report is a failure.
pub open spec fn succeeded(records: Seq<RecordView>) -> bool {
    forall|k: int| 0 <= k < records.len() ==> !((#[trigger] records[k]).outcome is Failed)
}

/// No line of the report says that a checkout was kept.
pub open spec fn nothing_kept(records: Seq<RecordView>) -> bool {
    forall|k: int| 0 <= k < records.len() ==> (#[trigger] records[k]).outcome != Outcome::Kept
}

/// Whether no line of `records` says that a checkout was kept.
pub fn none_kept(records: &Vec<Record>) -> (r: bool)
    ensures
        r == nothing_kept(lines(records@)),
{
    let mut i: usize = 0;
    while i < records.len()
        invariant
            i <= records.len(),
            forall|k: int| 0 <= k < i ==> (#[trigger] lines(records@)[k]).outcome != Outcome::Kept,
        decreases records.len() - i,
    {
        if records[i].outcome == Outcome::Kept {
            assert(lines(records@)[i as int].outcome == Outcome::Kept);
            return false;
        }
        i = i + 1;
    }
    true
}

/// Whether no line of `records` is a failure.
pub fn all_succeeded(records: &Vec<Record>) -> (r: bool)
    ensures
        r == succeeded(lines(records@)),
{
    let mut i: usize = 0;
    while i < records.len()
        invariant
            i <= records.len(),
            forall|k: int| 0 <= k < i ==> !((#[trigger] lines(records@)[k]).outcome is Failed),
        decreases records.len() - i,
    {
        match records[i].outcome {
            Outcome::Failed(_) => {
                assert(lines(records@)[i as int].outcome is Failed);
                return false;
            },
            _ => {},
        }
        i = i + 1;
    }
    true
}

/// The lines that say `outcome`.
pub open spec fn saying(outcome: Outcome) -> spec_fn(RecordView) -> bool {
    |line: RecordView| line.outcome == outcome
}

/// The paths of a list of lines.
pub open spec fn paths(records: Seq<RecordView>) -> Seq<Seq<char>> {
    Seq::new(records.len(), |i: int| records[i].path)
}

/// The paths of which `records` says `outcome`, in the order of the report.
pub fn paths_with(records: &Vec<Record>, outcome: Outcome) -> (r: Vec<String>)
    ensures
        texts(r@) == paths(lines(records@).filter(saying(outcome))),
{
    let ghost all = lines(records@);
    let mut out: Vec<String> = Vec::new();
    let mut i: usize = 0;
    proof {
        reveal(Seq::filter);
        assert(all.take(0) =~= Seq::<RecordView>::empty());
        assert(texts(out@) =~= paths(all.take(0).filter(saying(outcome))));
    }
    while i < records.len()
        invariant
            all == lines(records@),
            i <= records.len(),
            texts(out@) == paths(all.take(i as int).filter(saying(outcome))),
        decreases records.len() - i,
    {
        proof {
            reveal(Seq::filter);
            assert(all.take(i + 1).drop_last() =~= all.take(i as int));
            assert(all.take(i + 1).last() == records[i as int]@);
        }
        if records[i].outcome == outcome {
            let ghost before = texts(out@);
            let ghost kept = all.take(i as int).filter(saying(outcome));
            out.push(records[i].path.clone());
            assert(texts(out@) =~= before.push(records[i as int]@.path));
            assert(paths(kept.push(records[i as int]@)) =~= paths(kept).push(
                records[i as int]@.path,
            ));
        }
        i = i + 1;
    }
    assert(all.take(records.len() as int) =~= all);
    out
}

} // verus!
