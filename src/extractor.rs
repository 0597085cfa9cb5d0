//! Candidate extraction: the sections of one note, found by the format's
//! label rules, with a positional heuristic fallback for unlabelled text.

use vstd::prelude::*;
use crate::formats::{is_mandatory, label, label_count, label_text, mandatory, n_labels};
use crate::models::{
    candidate_views, lemma_candidate_views_push, lemma_warning_views_push, warning_views,
    CandidateView, ExtractionCandidate, NoteFormat, Origin, Stage, Warning, WarningView,
};
use crate::text::{
    has_prefix, join_line_strings, join_lines, lemma_views_push, lines_of, split_lines,
    starts_with, trim, trim_text, views,
};

verus! {

/// Options of one extraction.
#[derive(Clone, Copy, Debug)]
pub struct ParseOptions {
    pub apply_heuristics: bool,
}

/// The first label of `f`, from index `k` on, that `line` starts with,
/// followed by a colon.
pub open spec fn find_label(f: NoteFormat, line: Seq<char>, k: nat) -> Option<nat>
    decreases n_labels(f) - k,
{
    if k >= n_labels(f) {
        None
    } else if starts_with(line, label(f, k) + ":"@) {
        Some(k)
    } else {
        find_label(f, line, k + 1)
    }
}

/// A note's lines before the first label line, and its labelled sections:
/// each a label index and its lines, the first being the text after the
/// label's colon.
pub struct Scan {
    pub preamble: Seq<Seq<char>>,
    pub sections: Seq<(nat, Seq<Seq<char>>)>,
}

pub open spec fn scan(f: NoteFormat, ls: Seq<Seq<char>>) -> Scan
    decreases ls.len(),
{
    if ls.len() == 0 {
        Scan { preamble: Seq::empty(), sections: Seq::empty() }
    } else {
        let p = scan(f, ls.drop_last());
        let line = ls.last();
        match find_label(f, line, 0) {
            Some(k) => Scan {
                preamble: p.preamble,
                sections: p.sections.push(
                    (k, seq![line.subrange((label(f, k).len() + 1) as int, line.len() as int)]),
                ),
            },
            None => if p.sections.len() == 0 {
                Scan { preamble: p.preamble.push(line), sections: p.sections }
            } else {
                let j = p.sections.len() - 1;
                Scan {
                    preamble: p.preamble,
                    sections: p.sections.update(j, (p.sections[j].0, p.sections[j].1.push(line))),
                }
            },
        }
    }
}

pub open spec fn rule_candidate(f: NoteFormat, s: (nat, Seq<Seq<char>>)) -> CandidateView {
    CandidateView { label: label(f, s.0), content: trim(join_lines(s.1)), origin: Origin::Rule }
}

pub open spec fn rule_candidates(f: NoteFormat, secs: Seq<(nat, Seq<Seq<char>>)>) -> Seq<
    CandidateView,
> {
    secs.map_values(|s: (nat, Seq<Seq<char>>)| rule_candidate(f, s))
}

pub open spec fn has_label(secs: Seq<(nat, Seq<Seq<char>>)>, k: nat) -> bool {
    exists|j: int| 0 <= j < secs.len() && #[trigger] secs[j].0 == k
}

/// The first mandatory label of `f`, from index `k` on, that no section has.
pub open spec fn first_missing(f: NoteFormat, secs: Seq<(nat, Seq<Seq<char>>)>, k: nat) -> Option<
    nat,
>
    decreases n_labels(f) - k,
{
    if k >= n_labels(f) {
        None
    } else if mandatory(f, k) && !has_label(secs, k) {
        Some(k)
    } else {
        first_missing(f, secs, k + 1)
    }
}

pub open spec fn missing_message(l: Seq<char>) -> Seq<char> {
    "missing mandatory section: "@ + l
}

pub open spec fn fallback_message(l: Seq<char>) -> Seq<char> {
    "heuristic fallback used for section: "@ + l
}

pub open spec fn unclassified_message() -> Seq<char> {
    "unclassified text retained"@
}

pub open spec fn ignored_message() -> Seq<char> {
    "unlabelled text ignored: heuristics disabled"@
}

/// Warnings on the mandatory labels below `k` that no section has: the
/// fallback one for the label the heuristic filled, a missing one otherwise.
pub open spec fn label_warnings(
    f: NoteFormat,
    secs: Seq<(nat, Seq<Seq<char>>)>,
    heur: Option<nat>,
    k: nat,
) -> Seq<WarningView>
    decreases k,
{
    if k == 0 {
        Seq::empty()
    } else {
        let prev = label_warnings(f, secs, heur, (k - 1) as nat);
        let j = (k - 1) as nat;
        if mandatory(f, j) && !has_label(secs, j) {
            if heur == Some(j) {
                prev.push(WarningView { stage: Stage::Extraction, message: fallback_message(label(f, j)) })
            } else {
                prev.push(WarningView { stage: Stage::Extraction, message: missing_message(label(f, j)) })
            }
        } else {
            prev
        }
    }
}

/// The unlabelled text before the first section, trimmed.
pub open spec fn preamble_text(f: NoteFormat, text: Seq<char>) -> Seq<char> {
    trim(join_lines(scan(f, lines_of(text)).preamble))
}

/// The label that the fallback assigns the preamble to: the first missing
/// mandatory label, when heuristics are on and there is a preamble.
pub open spec fn heuristic_label(f: NoteFormat, text: Seq<char>, apply: bool) -> Option<nat> {
    if apply && preamble_text(f, text).len() > 0 {
        first_missing(f, scan(f, lines_of(text)).sections, 0)
    } else {
        None
    }
}

/// The candidates of a note, in document order.
pub open spec fn extract_candidates_spec(f: NoteFormat, text: Seq<char>, apply: bool) -> Seq<
    CandidateView,
> {
    let pre = preamble_text(f, text);
    let secs = scan(f, lines_of(text)).sections;
    let first = if pre.len() == 0 || !apply {
        Seq::empty()
    } else {
        match heuristic_label(f, text, apply) {
            Some(k) => seq![CandidateView { label: label(f, k), content: pre, origin: Origin::Heuristic }],
            None => seq![
                CandidateView { label: "Unclassified"@, content: pre, origin: Origin::Unclassified },
            ],
        }
    };
    first + rule_candidates(f, secs)
}

/// The warnings of a note's extraction.
pub open spec fn extract_warnings_spec(f: NoteFormat, text: Seq<char>, apply: bool) -> Seq<
    WarningView,
> {
    let secs = scan(f, lines_of(text)).sections;
    let heur = heuristic_label(f, text, apply);
    let ws = label_warnings(f, secs, heur, n_labels(f));
    if preamble_text(f, text).len() > 0 && !apply {
        ws.push(WarningView { stage: Stage::Extraction, message: ignored_message() })
    } else if preamble_text(f, text).len() > 0 && heur is None {
        ws.push(WarningView { stage: Stage::Extraction, message: unclassified_message() })
    } else {
        ws
    }
}

fn find_label_exec(f: NoteFormat, line: &str) -> (r: Option<usize>)
    ensures
        match r {
            Some(k) => find_label(f, line@, 0) == Some(k as nat) && k < n_labels(f) && label(
                f,
                k as nat,
            ).len() + 1 <= line@.len(),
            None => find_label(f, line@, 0) is None,
        },
{
    let n = label_count(f);
    let mut k: usize = 0;
    proof {
        reveal_strlit(":");
    }
    while k < n
        invariant
            ":"@.len() == 1,
            n == n_labels(f),
            k <= n,
            find_label(f, line@, 0) == find_label(f, line@, k as nat),
        decreases n - k,
    {
        let mut p = String::from_str(label_text(f, k));
        p.append(":");
        if has_prefix(line, p.as_str()) {
            return Some(k);
        }
        k = k + 1;
    }
    None
}

fn rule_candidate_exec(f: NoteFormat, k: usize, lines: &Vec<String>) -> (r: ExtractionCandidate)
    ensures
        r@ == rule_candidate(f, (k as nat, views(lines@))),
{
    let joined = join_line_strings(lines);
    ExtractionCandidate {
        label: String::from_str(label_text(f, k)),
        content: trim_text(joined.as_str()),
        origin: Origin::Rule,
    }
}

proof fn lemma_rule_candidates_push(
    f: NoteFormat,
    secs: Seq<(nat, Seq<Seq<char>>)>,
    s: (nat, Seq<Seq<char>>),
)
    ensures
        rule_candidates(f, secs.push(s)) == rule_candidates(f, secs).push(rule_candidate(f, s)),
{
    assert(rule_candidates(f, secs.push(s)) =~= rule_candidates(f, secs).push(
        rule_candidate(f, s),
    ));
}

/// The scan of a note's lines, run: the preamble lines, the label index of
/// each section and the rule candidate of each section.
fn scan_exec(f: NoteFormat, lines: &Vec<String>) -> (r: (Vec<String>, Vec<usize>, Vec<ExtractionCandidate>))
    ensures
        views(r.0@) == scan(f, views(lines@)).preamble,
        r.1@.len() == scan(f, views(lines@)).sections.len(),
        forall|j: int|
            0 <= j < r.1@.len() ==> r.1@[j] as nat == #[trigger] scan(f, views(lines@)).sections[j].0,
        candidate_views(r.2@) == rule_candidates(f, scan(f, views(lines@)).sections),
{
    let mut pre: Vec<String> = Vec::new();
    let mut found: Vec<usize> = Vec::new();
    let mut done: Vec<ExtractionCandidate> = Vec::new();
    let mut cur: Vec<String> = Vec::new();
    let mut i: usize = 0;
    assert(views(lines@).take(0) =~= Seq::<Seq<char>>::empty());
    assert(views(pre@) =~= Seq::<Seq<char>>::empty());
    while i < lines.len()
        invariant
            i <= lines@.len(),
            views(pre@) == scan(f, views(lines@).take(i as int)).preamble,
            found@.len() == scan(f, views(lines@).take(i as int)).sections.len(),
            forall|j: int|
                0 <= j < found@.len() ==> found@[j] as nat == #[trigger] scan(
                    f,
                    views(lines@).take(i as int),
                ).sections[j].0,
            forall|j: int| 0 <= j < found@.len() ==> #[trigger] found@[j] < n_labels(f),
            found@.len() == 0 ==> done@.len() == 0,
            found@.len() > 0 ==> candidate_views(done@) == rule_candidates(
                f,
                scan(f, views(lines@).take(i as int)).sections.drop_last(),
            ),
            found@.len() > 0 ==> views(cur@) == scan(
                f,
                views(lines@).take(i as int),
            ).sections.last().1,
        decreases lines@.len() - i,
    {
        let ghost ls = views(lines@).take(i as int);
        let ghost sc = scan(f, ls);
        assert(views(lines@).take(i + 1).drop_last() =~= ls);
        assert(views(lines@).take(i + 1).last() == lines@[i as int]@);
        let line = &lines[i];
        match find_label_exec(f, line.as_str()) {
            Some(k) => {
                let ll = label_text(f, k).unicode_len();
                let n = line.unicode_len();
                let rest = String::from_str(line.as_str().substring_char(ll + 1, n));
                if found.len() > 0 {
                    let c = rule_candidate_exec(f, found[found.len() - 1], &cur);
                    let ghost old_done = done@;
                    done.push(c);
                    proof {
                        lemma_candidate_views_push(old_done, c);
                        assert(sc.sections =~= sc.sections.drop_last().push(sc.sections.last()));
                        lemma_rule_candidates_push(f, sc.sections.drop_last(), sc.sections.last());
                    }
                } else {
                    proof {
                        assert(sc.sections =~= Seq::<(nat, Seq<Seq<char>>)>::empty());
                        assert(candidate_views(done@) =~= rule_candidates(f, sc.sections));
                    }
                }
                cur = Vec::new();
                let ghost old_cur = cur@;
                cur.push(rest);
                found.push(k);
                proof {
                    lemma_views_push(old_cur, rest);
                    assert(views(cur@) =~= seq![rest@]);
                    let s2 = sc.sections.push(
                        (k as nat, seq![lines@[i as int]@.subrange((label(f, k as nat).len() + 1) as int, lines@[i as int]@.len() as int)]),
                    );
                    assert(s2.drop_last() =~= sc.sections);
                }
            },
            None => {
                let l2 = line.clone();
                if found.len() == 0 {
                    let ghost old_pre = pre@;
                    pre.push(l2);
                    proof {
                        lemma_views_push(old_pre, l2);
                    }
                } else {
                    let ghost old_cur = cur@;
                    cur.push(l2);
                    proof {
                        lemma_views_push(old_cur, l2);
                        let j = sc.sections.len() - 1;
                        let s2 = sc.sections.update(j, (sc.sections[j].0, sc.sections[j].1.push(l2@)));
                        assert(s2.drop_last() =~= sc.sections.drop_last());
                    }
                }
            },
        }
        i = i + 1;
    }
    proof {
        assert(views(lines@).take(lines@.len() as int) =~= views(lines@));
    }
    if found.len() > 0 {
        let ghost sc = scan(f, views(lines@));
        let c = rule_candidate_exec(f, found[found.len() - 1], &cur);
        let ghost old_done = done@;
        done.push(c);
        proof {
            lemma_candidate_views_push(old_done, c);
            assert(sc.sections =~= sc.sections.drop_last().push(sc.sections.last()));
            lemma_rule_candidates_push(f, sc.sections.drop_last(), sc.sections.last());
        }
    } else {
        assert(candidate_views(done@) =~= rule_candidates(f, scan(f, views(lines@)).sections));
    }
    (pre, found, done)
}

fn has_label_exec(found: &Vec<usize>, k: usize, secs: Ghost<Seq<(nat, Seq<Seq<char>>)>>) -> (r: bool)
    requires
        found@.len() == secs@.len(),
        forall|j: int| 0 <= j < found@.len() ==> found@[j] as nat == #[trigger] secs@[j].0,
    ensures
        r == has_label(secs@, k as nat),
{
    let mut j: usize = 0;
    while j < found.len()
        invariant
            j <= found@.len(),
            found@.len() == secs@.len(),
            forall|m: int| 0 <= m < found@.len() ==> found@[m] as nat == #[trigger] secs@[m].0,
            forall|m: int| 0 <= m < j ==> #[trigger] secs@[m].0 != k as nat,
        decreases found@.len() - j,
    {
        if found[j] == k {
            assert(secs@[j as int].0 == k as nat);
            return true;
        }
        j = j + 1;
    }
    false
}

fn first_missing_exec(f: NoteFormat, found: &Vec<usize>, secs: Ghost<Seq<(nat, Seq<Seq<char>>)>>) -> (r: Option<usize>)
    requires
        found@.len() == secs@.len(),
        forall|j: int| 0 <= j < found@.len() ==> found@[j] as nat == #[trigger] secs@[j].0,
    ensures
        match r {
            Some(k) => first_missing(f, secs@, 0) == Some(k as nat),
            None => first_missing(f, secs@, 0) is None,
        },
{
    let n = label_count(f);
    let mut k: usize = 0;
    while k < n
        invariant
            n == n_labels(f),
            k <= n,
            found@.len() == secs@.len(),
            forall|j: int| 0 <= j < found@.len() ==> found@[j] as nat == #[trigger] secs@[j].0,
            first_missing(f, secs@, 0) == first_missing(f, secs@, k as nat),
        decreases n - k,
    {
        if is_mandatory(f, k) && !has_label_exec(found, k, secs) {
            return Some(k);
        }
        k = k + 1;
    }
    None
}

fn extraction_warning(prefix: &str, l: &str) -> (r: Warning)
    ensures
        r@ == (WarningView { stage: Stage::Extraction, message: prefix@ + l@ }),
{
    let mut m = String::from_str(prefix);
    m.append(l);
    Warning { stage: Stage::Extraction, message: m }
}

/// Extracts the candidates of one note and its warnings. Lines that start
/// with a label of `format` and a colon open a section, which runs to the
/// next such line; contents are trimmed. Text before the first section is
/// the fallback's: with heuristics on it becomes one candidate, assigned to
/// the first missing mandatory label (origin `Heuristic`, with a warning) or,
/// where none is missing, `Unclassified` (with a warning); with heuristics
/// off it gives no candidate and a warning that it was ignored. Each
/// mandatory label that no section has and the fallback did not fill gets a
/// warning.
pub fn extract_candidates(note_text: &str, format: NoteFormat, options: ParseOptions) -> (r: (
    Vec<ExtractionCandidate>,
    Vec<Warning>,
))
    ensures
        candidate_views(r.0@) == extract_candidates_spec(format, note_text@, options.apply_heuristics),
        warning_views(r.1@) == extract_warnings_spec(format, note_text@, options.apply_heuristics),
{
    let f = format;
    let lines = split_lines(note_text);
    let (pre, found, rules) = scan_exec(f, &lines);
    let ghost secs = scan(f, lines_of(note_text@)).sections;
    let joined = join_line_strings(&pre);
    let pre_text = trim_text(joined.as_str());
    let has_pre = pre_text.unicode_len() > 0;
    let heur = if options.apply_heuristics && has_pre {
        first_missing_exec(f, &found, Ghost(secs))
    } else {
        None
    };
    assert(match heur {
        Some(k) => heuristic_label(f, note_text@, options.apply_heuristics) == Some(k as nat),
        None => heuristic_label(f, note_text@, options.apply_heuristics) is None,
    });
    let mut cands: Vec<ExtractionCandidate> = Vec::new();
    assert(candidate_views(cands@) =~= Seq::<CandidateView>::empty());
    if has_pre && options.apply_heuristics {
        let c = match heur {
            Some(k) => ExtractionCandidate {
                label: String::from_str(label_text(f, k)),
                content: pre_text,
                origin: Origin::Heuristic,
            },
            None => ExtractionCandidate {
                label: String::from_str("Unclassified"),
                content: pre_text,
                origin: Origin::Unclassified,
            },
        };
        cands.push(c);
        proof {
            lemma_candidate_views_push(Seq::empty(), c);
        }
    }
    let ghost first = candidate_views(cands@);
    let mut rest = rules;
    cands.append(&mut rest);
    assert(candidate_views(cands@) =~= first + candidate_views(rules@));

    let mut warnings: Vec<Warning> = Vec::new();
    let n = label_count(f);
    let mut k: usize = 0;
    assert(warning_views(warnings@) =~= Seq::<WarningView>::empty());
    while k < n
        invariant
            n == n_labels(f),
            k <= n,
            found@.len() == secs.len(),
            forall|j: int| 0 <= j < found@.len() ==> found@[j] as nat == #[trigger] secs[j].0,
            warning_views(warnings@) == label_warnings(
                f,
                secs,
                heuristic_label(f, note_text@, options.apply_heuristics),
                k as nat,
            ),
            match heur {
                Some(h) => heuristic_label(f, note_text@, options.apply_heuristics) == Some(h as nat),
                None => heuristic_label(f, note_text@, options.apply_heuristics) is None,
            },
        decreases n - k,
    {
        if is_mandatory(f, k) && !has_label_exec(&found, k, Ghost(secs)) {
            let l = label_text(f, k);
            let w = if heur == Some(k) {
                extraction_warning("heuristic fallback used for section: ", l)
            } else {
                extraction_warning("missing mandatory section: ", l)
            };
            let ghost old_w = warnings@;
            warnings.push(w);
            proof {
                lemma_warning_views_push(old_w, w);
            }
        }
        k = k + 1;
    }
    if has_pre && !options.apply_heuristics {
        let w = Warning {
            stage: Stage::Extraction,
            message: String::from_str("unlabelled text ignored: heuristics disabled"),
        };
        let ghost old_w = warnings@;
        warnings.push(w);
        proof {
            lemma_warning_views_push(old_w, w);
        }
    } else if has_pre && heur.is_none() {
        let w = Warning {
            stage: Stage::Extraction,
            message: String::from_str("unclassified text retained"),
        };
        let ghost old_w = warnings@;
        warnings.push(w);
        proof {
            lemma_warning_views_push(old_w, w);
        }
    }
    (cands, warnings)
}

/// A section's lines as they stand in the note, its label line first.
pub open spec fn section_lines(f: NoteFormat, s: (nat, Seq<Seq<char>>)) -> Seq<Seq<char>> {
    if s.1.len() == 0 {
        Seq::empty()
    } else {
        seq![label(f, s.0) + ":"@ + s.1[0]] + s.1.drop_first()
    }
}

pub open spec fn all_section_lines(f: NoteFormat, secs: Seq<(nat, Seq<Seq<char>>)>) -> Seq<
    Seq<char>,
>
    decreases secs.len(),
{
    if secs.len() == 0 {
        Seq::empty()
    } else {
        all_section_lines(f, secs.drop_last()) + section_lines(f, secs.last())
    }
}

proof fn lemma_find_label(f: NoteFormat, line: Seq<char>, k: nat)
    ensures
        match find_label(f, line, k) {
            Some(j) => starts_with(line, label(f, j) + ":"@),
            None => true,
        },
    decreases n_labels(f) - k,
{
    if k < n_labels(f) && !starts_with(line, label(f, k) + ":"@) {
        lemma_find_label(f, line, k + 1);
    }
}

proof fn lemma_scan_covers(f: NoteFormat, ls: Seq<Seq<char>>)
    ensures
        scan(f, ls).preamble + all_section_lines(f, scan(f, ls).sections) == ls,
        forall|j: int|
            0 <= j < scan(f, ls).sections.len() ==> (#[trigger] scan(f, ls).sections[j]).1.len()
                >= 1,
    decreases ls.len(),
{
    if ls.len() > 0 {
        let p = ls.drop_last();
        lemma_scan_covers(f, p);
        let sp = scan(f, p);
        let sc = scan(f, ls);
        let line = ls.last();
        reveal_strlit(":");
        assert(p.push(line) =~= ls);
        match find_label(f, line, 0) {
            Some(k) => {
                lemma_find_label(f, line, 0);
                let pre = label(f, k) + ":"@;
                let rest = line.subrange((label(f, k).len() + 1) as int, line.len() as int);
                assert(pre + rest =~= line);
                assert(sc.sections.drop_last() =~= sp.sections);
                assert(section_lines(f, (k, seq![rest])) =~= seq![line]);
                assert(forall|j: int|
                    0 <= j < sp.sections.len() ==> sc.sections[j] == sp.sections[j]);
            },
            None => {
                if sp.sections.len() > 0 {
                    let j = sp.sections.len() - 1;
                    let (k, body) = sp.sections[j];
                    assert(sc.sections.drop_last() =~= sp.sections.drop_last());
                    assert(sp.sections[j] == sp.sections.last());
                    assert(body.push(line).drop_first() =~= body.drop_first().push(line));
                    assert(section_lines(f, (k, body.push(line))) =~= section_lines(f, (k, body)).push(
                        line,
                    ));
                    assert(all_section_lines(f, sp.sections) == all_section_lines(
                        f,
                        sp.sections.drop_last(),
                    ) + section_lines(f, sp.sections.last()));
                    assert(forall|i: int|
                        0 <= i < j ==> sc.sections[i] == sp.sections[i]);
                }
            },
        }
    }
}

/// No text of a note is lost: its lines are the preamble followed by each
/// section's lines (label line included); each section gives one candidate,
/// in order. With heuristics on, a non-blank preamble gives one candidate
/// before them (assigned to a label or unclassified); with heuristics off
/// it gives none and a warning says it was ignored.
pub proof fn lemma_no_loss(f: NoteFormat, text: Seq<char>, apply: bool)
    ensures
        ({
            let sc = scan(f, lines_of(text));
            let cands = extract_candidates_spec(f, text, apply);
            let off: int = if preamble_text(f, text).len() > 0 && apply {
                1
            } else {
                0
            };
            &&& sc.preamble + all_section_lines(f, sc.sections) == lines_of(text)
            &&& cands.len() == off + sc.sections.len()
            &&& forall|j: int|
                0 <= j < sc.sections.len() ==> cands[off + j] == rule_candidate(
                    f,
                    #[trigger] sc.sections[j],
                )
            &&& off == 1 ==> cands[0].content == preamble_text(f, text)
            &&& (preamble_text(f, text).len() > 0 && !apply) ==> extract_warnings_spec(
                f,
                text,
                apply,
            ).last() == (WarningView { stage: Stage::Extraction, message: ignored_message() })
        }),
{
    lemma_scan_covers(f, lines_of(text));
}

} // verus!
