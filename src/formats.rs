//! The static label table of each note format.

use vstd::prelude::*;
use crate::models::NoteFormat;

verus! {

pub open spec fn n_labels(f: NoteFormat) -> nat {
    match f {
        NoteFormat::Soap => 4,
        NoteFormat::Progress => 5,
    }
}

/// The `k`-th label of format `f`, in table order.
pub open spec fn label(f: NoteFormat, k: nat) -> Seq<char> {
    match f {
        NoteFormat::Soap => if k == 0 {
            "Subjective"@
        } else if k == 1 {
            "Objective"@
        } else if k == 2 {
            "Assessment"@
        } else {
            "Plan"@
        },
        NoteFormat::Progress => if k == 0 {
            "Chief Complaint"@
        } else if k == 1 {
            "History"@
        } else if k == 2 {
            "Exam"@
        } else if k == 3 {
            "Assessment"@
        } else {
            "Plan"@
        },
    }
}

pub open spec fn mandatory(f: NoteFormat, k: nat) -> bool {
    match f {
        NoteFormat::Soap => true,
        NoteFormat::Progress => k == 0 || k == 4,
    }
}

pub fn label_count(f: NoteFormat) -> (r: usize)
    ensures
        r == n_labels(f),
{
    match f {
        NoteFormat::Soap => 4,
        NoteFormat::Progress => 5,
    }
}

pub fn label_text(f: NoteFormat, k: usize) -> (r: &'static str)
    ensures
        r@ == label(f, k as nat),
{
    match f {
        NoteFormat::Soap => if k == 0 {
            "Subjective"
        } else if k == 1 {
            "Objective"
        } else if k == 2 {
            "Assessment"
        } else {
            "Plan"
        },
        NoteFormat::Progress => if k == 0 {
            "Chief Complaint"
        } else if k == 1 {
            "History"
        } else if k == 2 {
            "Exam"
        } else if k == 3 {
            "Assessment"
        } else {
            "Plan"
        },
    }
}

pub fn is_mandatory(f: NoteFormat, k: usize) -> (r: bool)
    ensures
        r == mandatory(f, k as nat),
{
    match f {
        NoteFormat::Soap => true,
        NoteFormat::Progress => k == 0 || k == 4,
    }
}

} // verus!
