//! Note assembly: candidates merged into a label-to-content mapping.

use vstd::prelude::*;
use crate::models::{
    candidate_views, lemma_section_views_push, lemma_warning_views_push, section_views,
    warning_views, CandidateView, ExtractionCandidate, NoteFormat, Section, SectionView, Stage,
    StructuredNote, Warning, WarningView,
};

verus! {

/// The first section labelled `l`.
pub open spec fn index_of(secs: Seq<SectionView>, l: Seq<char>) -> Option<nat>
    decreases secs.len(),
{
    if secs.len() == 0 {
        None
    } else {
        match index_of(secs.drop_last(), l) {
            Some(j) => Some(j),
            None => if secs.last().label == l {
                Some((secs.len() - 1) as nat)
            } else {
                None
            },
        }
    }
}

pub open spec fn overwrite_message(l: Seq<char>) -> Seq<char> {
    "section overwritten by later candidate: "@ + l
}

/// Candidates applied in order: a label already present has its content
/// replaced (with a warning), a new label is appended.
pub open spec fn assemble_spec(cs: Seq<CandidateView>) -> (Seq<SectionView>, Seq<WarningView>)
    decreases cs.len(),
{
    if cs.len() == 0 {
        (Seq::empty(), Seq::empty())
    } else {
        let p = assemble_spec(cs.drop_last());
        let c = cs.last();
        let s = SectionView { label: c.label, content: c.content };
        match index_of(p.0, c.label) {
            Some(j) => (
                p.0.update(j as int, s),
                p.1.push(WarningView { stage: Stage::Assembly, message: overwrite_message(c.label) }),
            ),
            None => (p.0.push(s), p.1),
        }
    }
}

pub open spec fn labels_unique(secs: Seq<SectionView>) -> bool {
    forall|i: int, j: int|
        0 <= i < j < secs.len() ==> #[trigger] secs[i].label != #[trigger] secs[j].label
}

proof fn lemma_index_of(secs: Seq<SectionView>, l: Seq<char>)
    ensures
        match index_of(secs, l) {
            Some(j) => j < secs.len() && secs[j as int].label == l,
            None => forall|i: int| 0 <= i < secs.len() ==> #[trigger] secs[i].label != l,
        },
    decreases secs.len(),
{
    if secs.len() > 0 {
        lemma_index_of(secs.drop_last(), l);
        if index_of(secs.drop_last(), l) is None {
            assert forall|i: int| 0 <= i < secs.len() - 1 implies #[trigger] secs[i].label != l by {
                assert(secs.drop_last()[i] == secs[i]);
            }
        }
    }
}

/// Section labels of an assembled note are unique.
pub proof fn lemma_assemble_unique(cs: Seq<CandidateView>)
    ensures
        labels_unique(assemble_spec(cs).0),
    decreases cs.len(),
{
    if cs.len() > 0 {
        let p = assemble_spec(cs.drop_last());
        lemma_assemble_unique(cs.drop_last());
        lemma_index_of(p.0, cs.last().label);
    }
}

fn index_of_exec(secs: &Vec<Section>, l: &String) -> (r: Option<usize>)
    ensures
        match r {
            Some(j) => index_of(section_views(secs@), l@) == Some(j as nat),
            None => index_of(section_views(secs@), l@) is None,
        },
{
    let ghost sv = section_views(secs@);
    let mut j: usize = 0;
    assert(sv.take(0) =~= Seq::<SectionView>::empty());
    while j < secs.len()
        invariant
            j <= secs@.len(),
            sv == section_views(secs@),
            index_of(sv.take(j as int), l@) is None,
        decreases secs@.len() - j,
    {
        assert(sv.take(j + 1).drop_last() =~= sv.take(j as int));
        if secs[j].label == *l {
            proof {
                lemma_index_of(sv, l@);
                assert(sv.take(j + 1).last() == sv[j as int]);
                // the first match of the whole sequence lies in its prefix
                lemma_index_prefix(sv, l@, (j + 1) as nat);
            }
            return Some(j);
        }
        j = j + 1;
    }
    assert(sv.take(secs@.len() as int) =~= sv);
    None
}

/// Where a prefix already holds the label, the whole sequence has the same
/// first match.
proof fn lemma_index_prefix(secs: Seq<SectionView>, l: Seq<char>, n: nat)
    requires
        n <= secs.len(),
        index_of(secs.take(n as int), l) is Some,
    ensures
        index_of(secs, l) == index_of(secs.take(n as int), l),
    decreases secs.len(),
{
    if n < secs.len() {
        assert(secs.drop_last().take(n as int) =~= secs.take(n as int));
        lemma_index_prefix(secs.drop_last(), l, n);
    } else {
        assert(secs.take(n as int) =~= secs);
    }
}

/// Merges the candidates, in order, into the note's sections; appends the
/// overwrite warnings to `warnings`. Never fails.
pub fn build_note(
    candidates: Vec<ExtractionCandidate>,
    format: NoteFormat,
    source: Option<String>,
    ordinal: usize,
    warnings: Vec<Warning>,
) -> (r: StructuredNote)
    ensures
        section_views(r.sections@) == assemble_spec(candidate_views(candidates@)).0,
        warning_views(r.warnings@) == warning_views(warnings@) + assemble_spec(
            candidate_views(candidates@),
        ).1,
        labels_unique(section_views(r.sections@)),
        r.format == format,
        r.source == source,
        r.ordinal == ordinal,
{
    let ghost cv = candidate_views(candidates@);
    let mut sections: Vec<Section> = Vec::new();
    let mut ws = warnings;
    let mut i: usize = 0;
    assert(cv.take(0) =~= Seq::<CandidateView>::empty());
    assert(section_views(sections@) =~= Seq::<SectionView>::empty());
    assert(warning_views(ws@) =~= warning_views(warnings@) + Seq::<WarningView>::empty());
    while i < candidates.len()
        invariant
            i <= candidates@.len(),
            cv == candidate_views(candidates@),
            section_views(sections@) == assemble_spec(cv.take(i as int)).0,
            warning_views(ws@) == warning_views(warnings@) + assemble_spec(cv.take(i as int)).1,
        decreases candidates@.len() - i,
    {
        assert(cv.take(i + 1).drop_last() =~= cv.take(i as int));
        assert(cv.take(i + 1).last() == candidates@[i as int]@);
        let c = &candidates[i];
        let s = Section { label: c.label.clone(), content: c.content.clone() };
        match index_of_exec(&sections, &c.label) {
            Some(j) => {
                proof {
                    lemma_index_of(section_views(sections@), c.label@);
                }
                let ghost old_s = sections@;
                sections.set(j, s);
                assert(section_views(sections@) =~= section_views(old_s).update(j as int, s@));
                let mut m = String::from_str("section overwritten by later candidate: ");
                m.append(c.label.as_str());
                let w = Warning { stage: Stage::Assembly, message: m };
                let ghost old_w = ws@;
                ws.push(w);
                proof {
                    lemma_warning_views_push(old_w, w);
                }
            },
            None => {
                let ghost old_s = sections@;
                sections.push(s);
                proof {
                    lemma_section_views_push(old_s, s);
                }
            },
        }
        i = i + 1;
    }
    assert(cv.take(candidates@.len() as int) =~= cv);
    proof {
        lemma_assemble_unique(cv);
    }
    StructuredNote { format, sections, ordinal, source, warnings: ws }
}

} // verus!
