//! Batch report: per-file outcomes and the summary counts over a run.

use vstd::prelude::*;
use crate::models::StructuredNote;

verus! {

/// The outcome of one input file.
#[derive(Clone, Debug)]
pub enum FileOutcome {
    Success { path: String, notes: usize, warnings: usize },
    Failure { path: String, message: String },
}

/// Aggregate over a batch run.
#[derive(Clone, Debug)]
pub struct BatchReport {
    pub tool: String,
    pub runtime_ms: u128,
    pub outcomes: Vec<FileOutcome>,
    pub files_processed: usize,
    pub files_ok: usize,
    pub failures: usize,
    pub notes_produced: usize,
    pub total_warnings: usize,
}

/// `x`, or `usize::MAX` where it does not fit.
pub open spec fn sat(x: int) -> int {
    if x > usize::MAX {
        usize::MAX as int
    } else {
        x
    }
}

pub open spec fn count_ok(os: Seq<FileOutcome>) -> nat
    decreases os.len(),
{
    if os.len() == 0 {
        0
    } else {
        count_ok(os.drop_last()) + if os.last() is Success {
            1nat
        } else {
            0nat
        }
    }
}

pub open spec fn count_failed(os: Seq<FileOutcome>) -> nat
    decreases os.len(),
{
    if os.len() == 0 {
        0
    } else {
        count_failed(os.drop_last()) + if os.last() is Failure {
            1nat
        } else {
            0nat
        }
    }
}

/// Notes over the successful files.
pub open spec fn sum_notes(os: Seq<FileOutcome>) -> int
    decreases os.len(),
{
    if os.len() == 0 {
        0
    } else {
        sum_notes(os.drop_last()) + match os.last() {
            FileOutcome::Success { notes, .. } => notes as int,
            FileOutcome::Failure { .. } => 0,
        }
    }
}

/// Warnings over the successful files.
pub open spec fn sum_warnings(os: Seq<FileOutcome>) -> int
    decreases os.len(),
{
    if os.len() == 0 {
        0
    } else {
        sum_warnings(os.drop_last()) + match os.last() {
            FileOutcome::Success { warnings, .. } => warnings as int,
            FileOutcome::Failure { .. } => 0,
        }
    }
}

/// Warnings attached to the notes.
pub open spec fn note_warnings(ns: Seq<StructuredNote>) -> int
    decreases ns.len(),
{
    if ns.len() == 0 {
        0
    } else {
        note_warnings(ns.drop_last()) + ns.last().warnings@.len()
    }
}

proof fn lemma_counts_bounded(os: Seq<FileOutcome>)
    ensures
        count_ok(os) + count_failed(os) == os.len(),
        sum_notes(os) >= 0,
        sum_warnings(os) >= 0,
    decreases os.len(),
{
    if os.len() > 0 {
        lemma_counts_bounded(os.drop_last());
    }
}

proof fn lemma_note_warnings_nonneg(ns: Seq<StructuredNote>)
    ensures
        note_warnings(ns) >= 0,
    decreases ns.len(),
{
    if ns.len() > 0 {
        lemma_note_warnings_nonneg(ns.drop_last());
    }
}

fn sat_add(a: usize, b: usize) -> (r: usize)
    ensures
        r == sat(a + b),
{
    if a > usize::MAX - b {
        usize::MAX
    } else {
        a + b
    }
}

impl BatchReport {
    /// An empty report for `tool`.
    pub fn new(tool: &str) -> (r: BatchReport)
        ensures
            r.tool@ == tool@,
            r.outcomes@.len() == 0,
            r.runtime_ms == 0,
            r.files_processed == 0,
            r.files_ok == 0,
            r.failures == 0,
            r.notes_produced == 0,
            r.total_warnings == 0,
    {
        BatchReport {
            tool: String::from_str(tool),
            runtime_ms: 0,
            outcomes: Vec::new(),
            files_processed: 0,
            files_ok: 0,
            failures: 0,
            notes_produced: 0,
            total_warnings: 0,
        }
    }

    /// Records a file that produced `notes`.
    pub fn record_ok(&mut self, path: &str, notes: &Vec<StructuredNote>)
        ensures
            final(self).outcomes@.len() == old(self).outcomes@.len() + 1,
            final(self).outcomes@.drop_last() == old(self).outcomes@,
            match final(self).outcomes@.last() {
                FileOutcome::Success { path: p, notes: n, warnings: w } => p@ == path@ && n
                    == notes@.len() && w == sat(note_warnings(notes@)),
                FileOutcome::Failure { .. } => false,
            },
            final(self).tool == old(self).tool,
            final(self).runtime_ms == old(self).runtime_ms,
            final(self).files_processed == old(self).files_processed,
            final(self).files_ok == old(self).files_ok,
            final(self).failures == old(self).failures,
            final(self).notes_produced == old(self).notes_produced,
            final(self).total_warnings == old(self).total_warnings,
    {
        let mut w: usize = 0;
        let mut i: usize = 0;
        assert(notes@.take(0) =~= Seq::<StructuredNote>::empty());
        while i < notes.len()
            invariant
                i <= notes@.len(),
                w == sat(note_warnings(notes@.take(i as int))),
            decreases notes@.len() - i,
        {
            assert(notes@.take(i + 1).drop_last() =~= notes@.take(i as int));
            proof {
                lemma_note_warnings_nonneg(notes@.take(i as int));
            }
            w = sat_add(w, notes[i].warnings.len());
            i = i + 1;
        }
        assert(notes@.take(notes@.len() as int) =~= notes@);
        let ghost before = self.outcomes@;
        self.outcomes.push(
            FileOutcome::Success { path: String::from_str(path), notes: notes.len(), warnings: w },
        );
        assert(self.outcomes@.drop_last() =~= before);
    }

    /// Records a file that failed with `message`.
    pub fn record_failure(&mut self, path: &str, message: String)
        ensures
            final(self).outcomes@.len() == old(self).outcomes@.len() + 1,
            final(self).outcomes@.drop_last() == old(self).outcomes@,
            match final(self).outcomes@.last() {
                FileOutcome::Failure { path: p, message: m } => p@ == path@ && m@ == message@,
                FileOutcome::Success { .. } => false,
            },
            final(self).tool == old(self).tool,
            final(self).runtime_ms == old(self).runtime_ms,
            final(self).files_processed == old(self).files_processed,
            final(self).files_ok == old(self).files_ok,
            final(self).failures == old(self).failures,
            final(self).notes_produced == old(self).notes_produced,
            final(self).total_warnings == old(self).total_warnings,
    {
        let ghost before = self.outcomes@;
        self.outcomes.push(FileOutcome::Failure { path: String::from_str(path), message });
        assert(self.outcomes@.drop_last() =~= before);
    }

    /// Computes the summary counts from the recorded outcomes; note and
    /// warning totals saturate at `usize::MAX`.
    pub fn finalize(&mut self)
        ensures
            final(self).outcomes == old(self).outcomes,
            final(self).tool == old(self).tool,
            final(self).runtime_ms == old(self).runtime_ms,
            final(self).files_processed == old(self).outcomes@.len(),
            final(self).files_ok == count_ok(old(self).outcomes@),
            final(self).failures == count_failed(old(self).outcomes@),
            final(self).notes_produced == sat(sum_notes(old(self).outcomes@)),
            final(self).total_warnings == sat(sum_warnings(old(self).outcomes@)),
    {
        let mut ok: usize = 0;
        let mut failed: usize = 0;
        let mut notes: usize = 0;
        let mut warnings: usize = 0;
        let mut i: usize = 0;
        let ghost os = self.outcomes@;
        assert(os.take(0) =~= Seq::<FileOutcome>::empty());
        while i < self.outcomes.len()
            invariant
                os == self.outcomes@,
                i <= os.len(),
                ok == count_ok(os.take(i as int)),
                failed == count_failed(os.take(i as int)),
                notes == sat(sum_notes(os.take(i as int))),
                warnings == sat(sum_warnings(os.take(i as int))),
            decreases os.len() - i,
        {
            assert(os.take(i + 1).drop_last() =~= os.take(i as int));
            proof {
                lemma_counts_bounded(os.take(i as int));
            }
            match &self.outcomes[i] {
                FileOutcome::Success { notes: n, warnings: w, .. } => {
                    ok = ok + 1;
                    notes = sat_add(notes, *n);
                    warnings = sat_add(warnings, *w);
                },
                FileOutcome::Failure { .. } => {
                    failed = failed + 1;
                },
            }
            i = i + 1;
        }
        assert(os.take(os.len() as int) =~= os);
        self.files_processed = self.outcomes.len();
        self.files_ok = ok;
        self.failures = failed;
        self.notes_produced = notes;
        self.total_warnings = warnings;
    }
}

/// One failed file among otherwise successful ones: every other file counts
/// as a success, exactly one failure is counted, and the note and warning
/// totals are those of the run without the failed file, both as exact sums
/// and as the saturated totals that `finalize` reports.
pub proof fn lemma_batch_isolation(os: Seq<FileOutcome>, j: int)
    requires
        0 <= j < os.len(),
        os[j] is Failure,
        forall|i: int| 0 <= i < os.len() && i != j ==> #[trigger] os[i] is Success,
    ensures
        count_ok(os) == os.len() - 1,
        count_failed(os) == 1,
        sum_notes(os) == sum_notes(os.remove(j)),
        sum_warnings(os) == sum_warnings(os.remove(j)),
        count_ok(os.remove(j)) == os.len() - 1,
        sat(sum_notes(os)) == sat(sum_notes(os.remove(j))),
        sat(sum_warnings(os)) == sat(sum_warnings(os.remove(j))),
    decreases os.len(),
{
    if j == os.len() - 1 {
        assert(os.remove(j) =~= os.drop_last());
        lemma_all_ok(os.drop_last());
    } else {
        let p = os.drop_last();
        assert forall|i: int| 0 <= i < p.len() && i != j implies #[trigger] p[i] is Success by {
            assert(p[i] == os[i]);
        }
        lemma_batch_isolation(p, j);
        assert(os.remove(j).drop_last() =~= p.remove(j));
        assert(os.remove(j).last() == os.last());
    }
}

proof fn lemma_all_ok(os: Seq<FileOutcome>)
    requires
        forall|i: int| 0 <= i < os.len() ==> #[trigger] os[i] is Success,
    ensures
        count_ok(os) == os.len(),
        count_failed(os) == 0,
    decreases os.len(),
{
    if os.len() > 0 {
        let p = os.drop_last();
        assert forall|i: int| 0 <= i < p.len() implies #[trigger] p[i] is Success by {
            assert(p[i] == os[i]);
        }
        lemma_all_ok(p);
    }
}

} // verus!
