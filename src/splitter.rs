//! Bundle splitting: one document into an ordered sequence of note texts.

use vstd::prelude::*;
use crate::formats::{label, label_text};
use crate::models::{
    lemma_warning_views_push, warning_views, BundleMode, Config, NoteFormat, Stage, Warning,
    WarningView,
};
use crate::text::{
    has_prefix, join_line_strings, join_lines, join_on, lemma_join_all, lemma_join_split,
    lemma_split_join, lemma_split_on_len, lemma_split_pieces, lemma_split_pieces_all,
    lemma_views_push, lines_of,
    split_lines, split_on, starts_with, views,
};

verus! {

pub open spec fn joined(gs: Seq<Seq<Seq<char>>>) -> Seq<Seq<char>> {
    gs.map_values(|g: Seq<Seq<char>>| join_lines(g))
}

/// The texts of `ts` that are not empty, in order.
pub open spec fn nonempty_only(ts: Seq<Seq<char>>) -> Seq<Seq<char>>
    decreases ts.len(),
{
    if ts.len() == 0 {
        Seq::empty()
    } else {
        let p = nonempty_only(ts.drop_last());
        if ts.last().len() > 0 {
            p.push(ts.last())
        } else {
            p
        }
    }
}

/// Whether some line starts with the marker `m`.
pub open spec fn has_marker(ls: Seq<Seq<char>>, m: Seq<char>) -> bool
    decreases ls.len(),
{
    ls.len() > 0 && (has_marker(ls.drop_last(), m) || starts_with(ls.last(), m))
}

/// Groups of lines; a line starting with `m` opens a new group unless it is
/// the first such line.
pub open spec fn marker_groups(ls: Seq<Seq<char>>, m: Seq<char>) -> Seq<Seq<Seq<char>>>
    decreases ls.len(),
{
    if ls.len() == 0 {
        seq![Seq::empty()]
    } else {
        let prev = marker_groups(ls.drop_last(), m);
        let line = ls.last();
        if starts_with(line, m) && has_marker(ls.drop_last(), m) {
            prev.push(seq![line])
        } else {
            prev.update(prev.len() - 1, prev.last().push(line))
        }
    }
}

proof fn lemma_marker_groups_len(ls: Seq<Seq<char>>, m: Seq<char>)
    ensures
        marker_groups(ls, m).len() >= 1,
    decreases ls.len(),
{
    if ls.len() > 0 {
        lemma_marker_groups_len(ls.drop_last(), m);
    }
}

/// The leading marker of a format: its first label followed by a colon.
pub open spec fn leading_marker(f: NoteFormat) -> Seq<char> {
    label(f, 0) + ":"@
}

pub open spec fn delimiter_missing_message() -> Seq<char> {
    "expected bundle delimiter not found, treating as single note"@
}

pub open spec fn delimiter_empty_message() -> Seq<char> {
    "no note text between bundle delimiters, treating as single note"@
}

pub open spec fn marker_missing_message() -> Seq<char> {
    "no note marker found, treating as single note"@
}

/// What splitting `text` gives: the note texts in document order, and the
/// document-level warnings.
pub open spec fn split_spec(text: Seq<char>, mode: BundleMode, f: NoteFormat, d: Seq<char>) -> (
    Seq<Seq<char>>,
    Seq<WarningView>,
) {
    match mode {
        BundleMode::Single => (seq![text], Seq::empty()),
        BundleMode::Delimiter => {
            let gs = split_on(lines_of(text), d);
            if gs.len() == 1 {
                (
                    seq![text],
                    seq![WarningView { stage: Stage::BundleSplit, message: delimiter_missing_message() }],
                )
            } else if nonempty_only(joined(gs)).len() == 0 {
                (
                    seq![text],
                    seq![WarningView { stage: Stage::BundleSplit, message: delimiter_empty_message() }],
                )
            } else {
                (nonempty_only(joined(gs)), Seq::empty())
            }
        },
        BundleMode::Marker => {
            let ls = lines_of(text);
            if !has_marker(ls, leading_marker(f)) {
                (
                    seq![text],
                    seq![WarningView { stage: Stage::BundleSplit, message: marker_missing_message() }],
                )
            } else {
                (joined(marker_groups(ls, leading_marker(f))), Seq::empty())
            }
        },
    }
}

proof fn lemma_joined_push(gs: Seq<Seq<Seq<char>>>, g: Seq<Seq<char>>)
    ensures
        joined(gs.push(g)) == joined(gs).push(join_lines(g)),
{
    assert(joined(gs.push(g)) =~= joined(gs).push(join_lines(g)));
}

fn warn(message: &str) -> (r: Warning)
    ensures
        r@ == (WarningView { stage: Stage::BundleSplit, message: message@ }),
{
    Warning { stage: Stage::BundleSplit, message: String::from_str(message) }
}

/// Texts between lines equal to `d`, each group of lines joined back.
fn delimiter_groups(lines: &Vec<String>, d: &String) -> (r: Vec<String>)
    ensures
        views(r@) == joined(split_on(views(lines@), d@)),
{
    let mut texts: Vec<String> = Vec::new();
    let mut cur: Vec<String> = Vec::new();
    let mut i: usize = 0;
    assert(views(lines@).take(0) =~= Seq::<Seq<char>>::empty());
    assert(views(cur@) =~= Seq::<Seq<char>>::empty());
    assert(views(texts@) =~= Seq::<Seq<char>>::empty());
    while i < lines.len()
        invariant
            i <= lines@.len(),
            views(texts@) == joined(split_on(views(lines@).take(i as int), d@).drop_last()),
            views(cur@) == split_on(views(lines@).take(i as int), d@).last(),
        decreases lines@.len() - i,
    {
        let ghost g = split_on(views(lines@).take(i as int), d@);
        proof {
            lemma_split_on_len(views(lines@).take(i as int), d@);
        }
        assert(views(lines@).take(i + 1).drop_last() =~= views(lines@).take(i as int));
        assert(views(lines@).take(i + 1).last() == lines@[i as int]@);
        if lines[i] == *d {
            let t = join_line_strings(&cur);
            let ghost old_texts = texts@;
            texts.push(t);
            cur = Vec::new();
            proof {
                lemma_views_push(old_texts, t);
                assert(g.push(Seq::empty()).drop_last() =~= g);
                assert(g =~= g.drop_last().push(g.last()));
                lemma_joined_push(g.drop_last(), g.last());
                assert(views(cur@) =~= Seq::<Seq<char>>::empty());
            }
        } else {
            let line = lines[i].clone();
            let ghost old_cur = cur@;
            cur.push(line);
            proof {
                lemma_views_push(old_cur, line);
                let g2 = g.update(g.len() - 1, g.last().push(lines@[i as int]@));
                assert(g2.drop_last() =~= g.drop_last());
            }
        }
        i = i + 1;
    }
    let t = join_line_strings(&cur);
    let ghost old_texts = texts@;
    let ghost g = split_on(views(lines@), d@);
    texts.push(t);
    proof {
        assert(views(lines@).take(lines@.len() as int) =~= views(lines@));
        lemma_split_on_len(views(lines@), d@);
        lemma_views_push(old_texts, t);
        assert(g =~= g.drop_last().push(g.last()));
        lemma_joined_push(g.drop_last(), g.last());
    }
    texts
}

fn keep_nonempty(ts: Vec<String>) -> (r: Vec<String>)
    ensures
        views(r@) == nonempty_only(views(ts@)),
{
    let mut out: Vec<String> = Vec::new();
    let mut i: usize = 0;
    assert(views(ts@).take(0) =~= Seq::<Seq<char>>::empty());
    assert(views(out@) =~= Seq::<Seq<char>>::empty());
    while i < ts.len()
        invariant
            i <= ts@.len(),
            views(out@) == nonempty_only(views(ts@).take(i as int)),
        decreases ts@.len() - i,
    {
        assert(views(ts@).take(i + 1).drop_last() =~= views(ts@).take(i as int));
        assert(views(ts@).take(i + 1).last() == ts@[i as int]@);
        if ts[i].unicode_len() > 0 {
            let t = ts[i].clone();
            let ghost old_out = out@;
            out.push(t);
            proof {
                lemma_views_push(old_out, t);
            }
        }
        i = i + 1;
    }
    assert(views(ts@).take(ts@.len() as int) =~= views(ts@));
    out
}

/// Groups of lines split at the marker, each joined back.
fn marker_split(lines: &Vec<String>, m: &str) -> (r: (Vec<String>, bool))
    ensures
        r.1 == has_marker(views(lines@), m@),
        views(r.0@) == joined(marker_groups(views(lines@), m@)),
{
    let mut texts: Vec<String> = Vec::new();
    let mut cur: Vec<String> = Vec::new();
    let mut seen = false;
    let mut i: usize = 0;
    assert(views(lines@).take(0) =~= Seq::<Seq<char>>::empty());
    assert(views(cur@) =~= Seq::<Seq<char>>::empty());
    assert(views(texts@) =~= Seq::<Seq<char>>::empty());
    while i < lines.len()
        invariant
            i <= lines@.len(),
            seen == has_marker(views(lines@).take(i as int), m@),
            views(texts@) == joined(marker_groups(views(lines@).take(i as int), m@).drop_last()),
            views(cur@) == marker_groups(views(lines@).take(i as int), m@).last(),
        decreases lines@.len() - i,
    {
        let ghost g = marker_groups(views(lines@).take(i as int), m@);
        proof {
            lemma_marker_groups_len(views(lines@).take(i as int), m@);
        }
        assert(views(lines@).take(i + 1).drop_last() =~= views(lines@).take(i as int));
        assert(views(lines@).take(i + 1).last() == lines@[i as int]@);
        let is_marker = has_prefix(lines[i].as_str(), m);
        if is_marker && seen {
            let t = join_line_strings(&cur);
            let ghost old_texts = texts@;
            texts.push(t);
            cur = Vec::new();
            let line = lines[i].clone();
            cur.push(line);
            proof {
                lemma_views_push(old_texts, t);
                assert(g =~= g.drop_last().push(g.last()));
                lemma_joined_push(g.drop_last(), g.last());
                assert(g.push(seq![lines@[i as int]@]).drop_last() =~= g);
                assert(views(cur@) =~= seq![lines@[i as int]@]);
            }
        } else {
            let line = lines[i].clone();
            let ghost old_cur = cur@;
            cur.push(line);
            proof {
                lemma_views_push(old_cur, line);
                let g2 = g.update(g.len() - 1, g.last().push(lines@[i as int]@));
                assert(g2.drop_last() =~= g.drop_last());
            }
        }
        seen = seen || is_marker;
        i = i + 1;
    }
    let t = join_line_strings(&cur);
    let ghost old_texts = texts@;
    let ghost g = marker_groups(views(lines@), m@);
    texts.push(t);
    proof {
        lemma_marker_groups_len(views(lines@), m@);
        assert(views(lines@).take(lines@.len() as int) =~= views(lines@));
        lemma_views_push(old_texts, t);
        assert(g =~= g.drop_last().push(g.last()));
        lemma_joined_push(g.drop_last(), g.last());
    }
    (texts, seen)
}

/// Splits one document into note texts under `mode`; never fails and always
/// gives at least one note. In delimiter mode a line equal to the configured
/// delimiter separates notes and empty notes are dropped; where no delimiter
/// line is found, or no note is left, the whole document is one note and a
/// warning says so; in marker mode a line starting with the
/// format's first label and a colon opens a new note, except the first one.
pub fn split_bundle(text: &str, mode: BundleMode, format: NoteFormat, config: &Config) -> (r: (
    Vec<String>,
    Vec<Warning>,
))
    ensures
        (views(r.0@), warning_views(r.1@)) == split_spec(
            text@,
            mode,
            format,
            config.bundle.delimiter@,
        ),
        r.0@.len() >= 1,
{
    let mut warnings: Vec<Warning> = Vec::new();
    assert(warning_views(warnings@) =~= Seq::<WarningView>::empty());
    match mode {
        BundleMode::Single => {
            let mut notes: Vec<String> = Vec::new();
            notes.push(String::from_str(text));
            assert(views(notes@) =~= seq![text@]);
            (notes, warnings)
        },
        BundleMode::Delimiter => {
            let lines = split_lines(text);
            let groups = delimiter_groups(&lines, &config.bundle.delimiter);
            if groups.len() == 1 {
                let mut notes: Vec<String> = Vec::new();
                notes.push(String::from_str(text));
                assert(views(notes@) =~= seq![text@]);
                let w = warn("expected bundle delimiter not found, treating as single note");
                warnings.push(w);
                proof {
                    lemma_warning_views_push(Seq::empty(), w);
                    assert(warning_views(warnings@) =~= seq![w@]);
                }
                (notes, warnings)
            } else {
                let notes = keep_nonempty(groups);
                if notes.len() == 0 {
                    let mut single: Vec<String> = Vec::new();
                    single.push(String::from_str(text));
                    assert(views(single@) =~= seq![text@]);
                    let w = warn("no note text between bundle delimiters, treating as single note");
                    warnings.push(w);
                    proof {
                        lemma_warning_views_push(Seq::empty(), w);
                        assert(warning_views(warnings@) =~= seq![w@]);
                    }
                    (single, warnings)
                } else {
                    (notes, warnings)
                }
            }
        },
        BundleMode::Marker => {
            let lines = split_lines(text);
            let mut marker = String::from_str(label_text(format, 0));
            marker.append(":");
            let (groups, seen) = marker_split(&lines, marker.as_str());
            proof {
                lemma_marker_groups_len(views(lines@), marker@);
                assert(joined(marker_groups(views(lines@), marker@)).len() >= 1);
                assert(views(groups@).len() == groups@.len());
            }
            if !seen {
                let mut notes: Vec<String> = Vec::new();
                notes.push(String::from_str(text));
                assert(views(notes@) =~= seq![text@]);
                let w = warn("no note marker found, treating as single note");
                warnings.push(w);
                proof {
                    lemma_warning_views_push(Seq::empty(), w);
                    assert(warning_views(warnings@) =~= seq![w@]);
                }
                (notes, warnings)
            } else {
                (groups, warnings)
            }
        },
    }
}

/// The document made of `notes` with a line holding the delimiter `d`
/// between consecutive ones.
pub open spec fn rejoin(notes: Seq<Seq<char>>, d: Seq<char>) -> Seq<char> {
    join_lines(join_on(notes.map_values(|n: Seq<char>| lines_of(n)), d))
}

proof fn lemma_nonempty_only_all(ts: Seq<Seq<char>>)
    requires
        forall|i: int| 0 <= i < ts.len() ==> #[trigger] ts[i].len() > 0,
    ensures
        nonempty_only(ts) == ts,
    decreases ts.len(),
{
    if ts.len() > 0 {
        let p = ts.drop_last();
        assert forall|i: int| 0 <= i < p.len() implies #[trigger] p[i].len() > 0 by {
            assert(p[i] == ts[i]);
        }
        lemma_nonempty_only_all(p);
        assert(ts.last() == ts[ts.len() - 1]);
        assert(p.push(ts.last()) =~= ts);
    }
}

/// Notes that a delimiter split yields (at least one, none empty, none with
/// a line equal to the delimiter, a delimiter without line breaks), once
/// joined back with delimiter lines, split into the same notes.
pub proof fn lemma_resplit(notes: Seq<Seq<char>>, d: Seq<char>, f: NoteFormat)
    requires
        notes.len() >= 1,
        forall|i: int| 0 <= i < notes.len() ==> #[trigger] notes[i].len() > 0,
        forall|i: int, j: int|
            0 <= i < notes.len() && 0 <= j < lines_of(notes[i]).len() ==> lines_of(notes[i])[j]
                != d,
        forall|j: int| 0 <= j < d.len() ==> d[j] != '\n',
    ensures
        split_spec(rejoin(notes, d), BundleMode::Delimiter, f, d).0 == notes,
{
    let g = notes.map_values(|n: Seq<char>| lines_of(n));
    let l = join_on(g, d);
    assert forall|i: int, j: int| 0 <= i < g.len() && 0 <= j < g[i].len() implies g[i][j] != d by {
        assert(g[i] == lines_of(notes[i]));
    }
    assert forall|i: int, j: int| 0 <= i < g.len() && 0 <= j < g[i].len() implies (|x: Seq<char>|
        forall|c: int| 0 <= c < x.len() ==> x[c] != '\n')(g[i][j]) by {
        lemma_split_pieces(notes[i], '\n');
        assert(g[i] == lines_of(notes[i]));
    }
    lemma_join_all(g, d, |x: Seq<char>| forall|c: int| 0 <= c < x.len() ==> x[c] != '\n');
    lemma_split_on_len(notes[0], '\n');
    lemma_join_len(g, d);
    assert forall|i: int, j: int| 0 <= i < l.len() && 0 <= j < l[i].len() implies l[i][j]
        != '\n' by {
        assert((|x: Seq<char>| forall|c: int| 0 <= c < x.len() ==> x[c] != '\n')(l[i]));
    }
    lemma_split_join(l, '\n');
    lemma_split_join(g, d);
    assert(lines_of(rejoin(notes, d)) == l);
    assert forall|i: int| 0 <= i < notes.len() implies #[trigger] joined(g)[i] == notes[i] by {
        lemma_join_split(notes[i], '\n');
    }
    assert(joined(g) =~= notes);
    if notes.len() == 1 {
        assert(g =~= seq![lines_of(notes[0])]);
        lemma_join_split(notes[0], '\n');
    } else {
        lemma_nonempty_only_all(notes);
    }
}

proof fn lemma_nonempty_only_keeps(ts: Seq<Seq<char>>, p: spec_fn(Seq<char>) -> bool)
    requires
        forall|i: int| 0 <= i < ts.len() && #[trigger] ts[i].len() > 0 ==> p(ts[i]),
    ensures
        forall|k: int|
            0 <= k < nonempty_only(ts).len() ==> #[trigger] nonempty_only(ts)[k].len() > 0 && p(
                nonempty_only(ts)[k],
            ),
    decreases ts.len(),
{
    if ts.len() > 0 {
        let q = ts.drop_last();
        assert forall|i: int| 0 <= i < q.len() && #[trigger] q[i].len() > 0 implies p(q[i]) by {
            assert(q[i] == ts[i]);
        }
        lemma_nonempty_only_keeps(q, p);
        assert(ts.last() == ts[ts.len() - 1]);
        let r = nonempty_only(ts);
        let rq = nonempty_only(q);
        assert forall|k: int| 0 <= k < r.len() implies #[trigger] r[k].len() > 0 && p(r[k]) by {
            if k < rq.len() {
                assert(r[k] == rq[k]);
            }
        }
    }
}

/// Splitting a document in delimiter mode, joining the notes back with
/// delimiter lines and splitting again gives the same notes, wherever the
/// delimiter holds no line break.
pub proof fn lemma_split_rejoin_split(doc: Seq<char>, d: Seq<char>, f: NoteFormat)
    requires
        forall|j: int| 0 <= j < d.len() ==> d[j] != '\n',
    ensures
        ({
            let notes = split_spec(doc, BundleMode::Delimiter, f, d).0;
            split_spec(rejoin(notes, d), BundleMode::Delimiter, f, d).0 == notes
        }),
{
    let l = lines_of(doc);
    let gs = split_on(l, d);
    let notes = split_spec(doc, BundleMode::Delimiter, f, d).0;
    if gs.len() == 1 || nonempty_only(joined(gs)).len() == 0 {
        let g = notes.map_values(|n: Seq<char>| lines_of(n));
        assert(g =~= seq![l]);
        lemma_join_split(doc, '\n');
        assert(rejoin(notes, d) == doc);
    } else {
        let nl = |x: Seq<char>| forall|c: int| 0 <= c < x.len() ==> x[c] != '\n';
        lemma_split_pieces(doc, '\n');
        assert forall|i: int| 0 <= i < l.len() implies nl(#[trigger] l[i]) by {}
        lemma_split_pieces_all(l, d, nl);
        lemma_split_pieces(l, d);
        let good = |t: Seq<char>|
            forall|j: int| 0 <= j < lines_of(t).len() ==> lines_of(t)[j] != d;
        assert forall|i: int| 0 <= i < joined(gs).len() && #[trigger] joined(gs)[i].len() > 0 implies good(
            joined(gs)[i],
        ) by {
            let g = gs[i];
            assert(joined(gs)[i] == join_lines(g));
            assert(g.len() >= 1);
            assert forall|a: int, b: int| 0 <= a < g.len() && 0 <= b < g[a].len() implies g[a][b]
                != '\n' by {
                assert(nl(gs[i][a]));
            }
            lemma_split_join(g, '\n');
        }
        lemma_nonempty_only_keeps(joined(gs), good);
        assert forall|i: int, j: int|
            0 <= i < notes.len() && 0 <= j < lines_of(notes[i]).len() implies lines_of(notes[i])[j]
            != d by {
            assert(good(notes[i]));
        }
        assert forall|i: int| 0 <= i < notes.len() implies #[trigger] notes[i].len() > 0 by {
            assert(nonempty_only(joined(gs))[i].len() > 0);
        }
        lemma_resplit(notes, d, f);
    }
}

proof fn lemma_join_len(g: Seq<Seq<Seq<char>>>, d: Seq<char>)
    requires
        g.len() >= 1,
        g[0].len() >= 1,
    ensures
        join_on(g, d).len() >= 1,
    decreases g.len(),
{
    if g.len() > 1 {
        lemma_join_len(g.drop_last(), d);
    }
}

} // verus!
