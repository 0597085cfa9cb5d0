//! Text primitives over character sequences: splitting on a separator,
//! joining back, and trimming whitespace.

use vstd::prelude::*;

verus! {

/// Splits `s` at every occurrence of `sep`; the pieces never contain `sep`.
/// There is always at least one piece.
pub open spec fn split_on<A>(s: Seq<A>, sep: A) -> Seq<Seq<A>>
    decreases s.len(),
{
    if s.len() == 0 {
        seq![Seq::empty()]
    } else {
        let prev = split_on(s.drop_last(), sep);
        if s.last() == sep {
            prev.push(Seq::empty())
        } else {
            prev.update(prev.len() - 1, prev.last().push(s.last()))
        }
    }
}

/// Joins the pieces with `sep` between consecutive ones.
pub open spec fn join_on<A>(ss: Seq<Seq<A>>, sep: A) -> Seq<A>
    decreases ss.len(),
{
    if ss.len() == 0 {
        Seq::empty()
    } else if ss.len() == 1 {
        ss[0]
    } else {
        join_on(ss.drop_last(), sep).push(sep) + ss.last()
    }
}

pub open spec fn lines_of(s: Seq<char>) -> Seq<Seq<char>> {
    split_on(s, '\n')
}

pub open spec fn join_lines(ls: Seq<Seq<char>>) -> Seq<char> {
    join_on(ls, '\n')
}

pub open spec fn views(v: Seq<String>) -> Seq<Seq<char>> {
    v.map_values(|x: String| x@)
}

pub open spec fn is_ws(c: char) -> bool {
    c == ' ' || c == '\t' || c == '\n' || c == '\r'
}

/// First position at or after `i` that does not hold whitespace.
pub open spec fn skip_ws(s: Seq<char>, i: nat) -> nat
    decreases s.len() - i,
{
    if i < s.len() && is_ws(s[i as int]) {
        skip_ws(s, i + 1)
    } else {
        i
    }
}

/// End of `s.subrange(lo, j)` once trailing whitespace is dropped.
pub open spec fn back_ws(s: Seq<char>, lo: nat, j: nat) -> nat
    decreases j,
{
    if lo < j && j <= s.len() && is_ws(s[j - 1]) {
        back_ws(s, lo, (j - 1) as nat)
    } else {
        j
    }
}

/// `s` without leading and trailing whitespace.
pub open spec fn trim(s: Seq<char>) -> Seq<char> {
    let a = skip_ws(s, 0);
    s.subrange(a as int, back_ws(s, a, s.len()) as int)
}

pub open spec fn starts_with(s: Seq<char>, p: Seq<char>) -> bool {
    p.len() <= s.len() && s.subrange(0, p.len() as int) == p
}

pub proof fn lemma_views_push(v: Seq<String>, x: String)
    ensures
        views(v.push(x)) == views(v).push(x@),
{
    assert(views(v.push(x)) =~= views(v).push(x@));
}

pub proof fn lemma_split_on_len<A>(s: Seq<A>, sep: A)
    ensures
        split_on(s, sep).len() >= 1,
    decreases s.len(),
{
    if s.len() > 0 {
        lemma_split_on_len(s.drop_last(), sep);
    }
}

/// Joining the pieces of a split with the same separator gives back the input.
pub proof fn lemma_join_split<A>(s: Seq<A>, sep: A)
    ensures
        join_on(split_on(s, sep), sep) == s,
    decreases s.len(),
{
    if s.len() > 0 {
        let p = s.drop_last();
        lemma_join_split(p, sep);
        lemma_split_on_len(p, sep);
        let prev = split_on(p, sep);
        let cur = split_on(s, sep);
        if s.last() == sep {
            assert(cur.drop_last() =~= prev);
            assert(s =~= join_on(prev, sep).push(sep) + Seq::<A>::empty());
        } else if prev.len() > 1 {
            assert(cur.drop_last() =~= prev.drop_last());
            assert(s =~= (join_on(prev.drop_last(), sep).push(sep) + prev.last()).push(s.last()));
            assert(join_on(cur, sep) =~= join_on(prev.drop_last(), sep).push(sep) + prev.last().push(
                s.last(),
            ));
        } else {
            assert(s =~= prev[0].push(s.last()));
        }
    }
}

/// A sequence that holds no separator is a single piece.
pub proof fn lemma_split_no_sep<A>(s: Seq<A>, sep: A)
    requires
        forall|i: int| 0 <= i < s.len() ==> s[i] != sep,
    ensures
        split_on(s, sep) == seq![s],
    decreases s.len(),
{
    if s.len() > 0 {
        lemma_split_no_sep(s.drop_last(), sep);
        assert(s.last() == s[s.len() - 1]);
        assert(s.drop_last().push(s.last()) =~= s);
        assert(seq![s.drop_last()].update(0, s.drop_last().push(s.last())) =~= seq![s]);
    } else {
        assert(s =~= Seq::<A>::empty());
    }
}

/// Splitting `a`, a separator, then `b` gives the pieces of `a` followed by
/// the pieces of `b`.
pub proof fn lemma_split_concat<A>(a: Seq<A>, b: Seq<A>, sep: A)
    ensures
        split_on(a.push(sep) + b, sep) == split_on(a, sep) + split_on(b, sep),
    decreases b.len(),
{
    let s = a.push(sep) + b;
    if b.len() == 0 {
        assert(s =~= a.push(sep));
        assert(a.push(sep).drop_last() =~= a);
        assert(split_on(a, sep).push(Seq::empty()) =~= split_on(a, sep) + split_on(b, sep));
    } else {
        lemma_split_concat(a, b.drop_last(), sep);
        assert(s.drop_last() =~= a.push(sep) + b.drop_last());
        assert(s.last() == b.last());
        lemma_split_on_len(b.drop_last(), sep);
        let x = split_on(a, sep);
        let y = split_on(b.drop_last(), sep);
        if b.last() == sep {
            assert((x + y).push(Seq::empty()) =~= x + y.push(Seq::empty()));
        } else {
            assert((x + y).update((x + y).len() - 1, (x + y).last().push(b.last())) =~= x
                + y.update(y.len() - 1, y.last().push(b.last())));
        }
    }
}

/// Joining pieces that hold no separator, then splitting, gives the pieces
/// back.
pub proof fn lemma_split_join<A>(ss: Seq<Seq<A>>, sep: A)
    requires
        ss.len() >= 1,
        forall|i: int, j: int| 0 <= i < ss.len() && 0 <= j < ss[i].len() ==> ss[i][j] != sep,
    ensures
        split_on(join_on(ss, sep), sep) == ss,
    decreases ss.len(),
{
    if ss.len() == 1 {
        lemma_split_no_sep(ss[0], sep);
        assert(seq![ss[0]] =~= ss);
    } else {
        let p = ss.drop_last();
        assert forall|i: int, j: int| 0 <= i < p.len() && 0 <= j < p[i].len() implies p[i][j]
            != sep by {
            assert(p[i] == ss[i]);
        }
        lemma_split_join(p, sep);
        assert forall|j: int| 0 <= j < ss.last().len() implies ss.last()[j] != sep by {
            assert(ss.last() == ss[ss.len() - 1]);
        }
        lemma_split_no_sep(ss.last(), sep);
        lemma_split_concat(join_on(p, sep), ss.last(), sep);
        assert(p + seq![ss.last()] =~= ss);
    }
}

/// No piece of a split holds the separator.
pub proof fn lemma_split_pieces<A>(s: Seq<A>, sep: A)
    ensures
        forall|i: int, j: int|
            0 <= i < split_on(s, sep).len() && 0 <= j < split_on(s, sep)[i].len() ==> split_on(
                s,
                sep,
            )[i][j] != sep,
    decreases s.len(),
{
    if s.len() > 0 {
        lemma_split_pieces(s.drop_last(), sep);
        lemma_split_on_len(s.drop_last(), sep);
        let prev = split_on(s.drop_last(), sep);
        let cur = split_on(s, sep);
        if s.last() != sep {
            assert forall|i: int, j: int|
                0 <= i < cur.len() && 0 <= j < cur[i].len() implies cur[i][j] != sep by {
                if i == prev.len() - 1 {
                    assert(cur[i] == prev.last().push(s.last()));
                    if j < prev.last().len() {
                        assert(cur[i][j] == prev[i][j]);
                    }
                } else {
                    assert(cur[i] == prev[i]);
                }
            }
        } else {
            assert forall|i: int, j: int|
                0 <= i < cur.len() && 0 <= j < cur[i].len() implies cur[i][j] != sep by {
                assert(i < prev.len());
                assert(cur[i] == prev[i]);
            }
        }
    }
}

/// Where every element satisfies `p`, so does every element of every piece.
pub proof fn lemma_split_pieces_all<A>(s: Seq<A>, sep: A, p: spec_fn(A) -> bool)
    requires
        forall|i: int| 0 <= i < s.len() ==> p(#[trigger] s[i]),
    ensures
        forall|i: int, j: int|
            0 <= i < split_on(s, sep).len() && 0 <= j < split_on(s, sep)[i].len() ==> p(
                split_on(s, sep)[i][j],
            ),
    decreases s.len(),
{
    if s.len() > 0 {
        let q = s.drop_last();
        assert forall|i: int| 0 <= i < q.len() implies p(#[trigger] q[i]) by {
            assert(q[i] == s[i]);
        }
        lemma_split_pieces_all(q, sep, p);
        lemma_split_on_len(q, sep);
        let prev = split_on(q, sep);
        let cur = split_on(s, sep);
        assert(p(s[s.len() - 1]));
        if s.last() != sep {
            assert forall|i: int, j: int|
                0 <= i < cur.len() && 0 <= j < cur[i].len() implies p(cur[i][j]) by {
                if i == prev.len() - 1 {
                    assert(cur[i] == prev.last().push(s.last()));
                    if j < prev.last().len() {
                        assert(cur[i][j] == prev[i][j]);
                    }
                } else {
                    assert(cur[i] == prev[i]);
                }
            }
        } else {
            assert forall|i: int, j: int|
                0 <= i < cur.len() && 0 <= j < cur[i].len() implies p(cur[i][j]) by {
                assert(i < prev.len());
                assert(cur[i] == prev[i]);
            }
        }
    }
}

/// Where every piece and the separator satisfy `p`, so does every element of
/// the join.
pub proof fn lemma_join_all<A>(ss: Seq<Seq<A>>, sep: A, p: spec_fn(A) -> bool)
    requires
        forall|i: int, j: int| 0 <= i < ss.len() && 0 <= j < ss[i].len() ==> p(ss[i][j]),
        p(sep),
    ensures
        forall|k: int| 0 <= k < join_on(ss, sep).len() ==> p(#[trigger] join_on(ss, sep)[k]),
    decreases ss.len(),
{
    if ss.len() > 1 {
        let q = ss.drop_last();
        assert forall|i: int, j: int| 0 <= i < q.len() && 0 <= j < q[i].len() implies p(
            q[i][j],
        ) by {
            assert(q[i] == ss[i]);
        }
        lemma_join_all(q, sep, p);
        let a = join_on(q, sep).push(sep);
        let l = ss.last();
        assert forall|k: int| 0 <= k < join_on(ss, sep).len() implies p(
            #[trigger] join_on(ss, sep)[k],
        ) by {
            if k < a.len() - 1 {
                assert(join_on(ss, sep)[k] == join_on(q, sep)[k]);
            } else if k == a.len() - 1 {
                assert(join_on(ss, sep)[k] == sep);
            } else {
                assert(join_on(ss, sep)[k] == l[k - a.len()]);
                assert(l == ss[ss.len() - 1]);
            }
        }
    }
}

/// Splits `s` into its lines, separated by `'\n'`.
pub fn split_lines(s: &str) -> (r: Vec<String>)
    ensures
        views(r@) == lines_of(s@),
{
    let n = s.unicode_len();
    let mut out: Vec<String> = Vec::new();
    let mut start: usize = 0;
    let mut i: usize = 0;
    assert(s@.take(0) =~= Seq::<char>::empty());
    assert(s@.subrange(0, 0) =~= Seq::<char>::empty());
    assert(views(out@) =~= Seq::<Seq<char>>::empty());
    assert(views(out@).push(s@.subrange(0, 0)) =~= lines_of(s@.take(0)));
    while i < n
        invariant
            n == s@.len(),
            start <= i <= n,
            views(out@).push(s@.subrange(start as int, i as int)) == lines_of(s@.take(i as int)),
        decreases n - i,
    {
        let c = s.get_char(i);
        let ghost prev = views(out@).push(s@.subrange(start as int, i as int));
        assert(s@.take(i + 1).drop_last() =~= s@.take(i as int));
        assert(s@.take(i + 1).last() == c);
        if c == '\n' {
            let line = String::from_str(s.substring_char(start, i));
            let ghost old_out = out@;
            out.push(line);
            start = i + 1;
            proof {
                lemma_views_push(old_out, line);
            }
            assert(s@.subrange(start as int, start as int) =~= Seq::<char>::empty());
            assert(views(out@).push(s@.subrange(start as int, (i + 1) as int)) =~= prev.push(
                Seq::empty(),
            ));
        } else {
            assert(s@.subrange(start as int, i + 1) =~= s@.subrange(start as int, i as int).push(c));
            assert(views(out@).push(s@.subrange(start as int, (i + 1) as int)) =~= prev.update(
                prev.len() - 1,
                prev.last().push(c),
            ));
        }
        i = i + 1;
    }
    let last = String::from_str(s.substring_char(start, n));
    let ghost old_out = out@;
    out.push(last);
    proof {
        lemma_views_push(old_out, last);
    }
    assert(s@.take(n as int) =~= s@);
    out
}

/// Joins lines with `'\n'` between consecutive ones.
pub fn join_line_strings(ls: &Vec<String>) -> (r: String)
    ensures
        r@ == join_lines(views(ls@)),
{
    let mut r = String::new();
    let mut i: usize = 0;
    proof {
        reveal_strlit("\n");
        assert("\n"@ =~= seq!['\n']);
    }
    while i < ls.len()
        invariant
            i <= ls@.len(),
            "\n"@ == seq!['\n'],
            r@ == join_lines(views(ls@.take(i as int))),
        decreases ls@.len() - i,
    {
        let ghost before = views(ls@.take(i as int));
        assert(views(ls@.take(i + 1)).drop_last() =~= before);
        assert(views(ls@.take(i + 1)).last() == ls@[i as int]@);
        if i > 0 {
            r.append("\n");
        }
        r.append(ls[i].as_str());
        if i == 0 {
            assert(r@ =~= views(ls@.take(1))[0]);
        } else {
            assert(r@ =~= join_lines(before).push('\n') + ls@[i as int]@);
        }
        i = i + 1;
    }
    assert(ls@.take(ls@.len() as int) =~= ls@);
    r
}

/// `s` without leading and trailing whitespace.
pub fn trim_text(s: &str) -> (r: String)
    ensures
        r@ == trim(s@),
{
    let n = s.unicode_len();
    let mut a: usize = 0;
    while a < n && is_ws_exec(s.get_char(a))
        invariant
            n == s@.len(),
            a <= n,
            skip_ws(s@, a as nat) == skip_ws(s@, 0),
        decreases n - a,
    {
        a = a + 1;
    }
    let mut b: usize = n;
    while b > a && is_ws_exec(s.get_char(b - 1))
        invariant
            n == s@.len(),
            a <= b <= n,
            back_ws(s@, a as nat, b as nat) == back_ws(s@, a as nat, n as nat),
        decreases b,
    {
        b = b - 1;
    }
    String::from_str(s.substring_char(a, b))
}

pub fn is_ws_exec(c: char) -> (r: bool)
    ensures
        r == is_ws(c),
{
    c == ' ' || c == '\t' || c == '\n' || c == '\r'
}

/// Whether `a` and `b` hold the same characters.
pub fn str_eq(a: &str, b: &str) -> (r: bool)
    ensures
        r == (a@ == b@),
{
    if a.unicode_len() != b.unicode_len() {
        return false;
    }
    let r = has_prefix(a, b);
    proof {
        if a@ == b@ {
            assert(a@.subrange(0, b@.len() as int) =~= b@);
        }
        if r {
            assert(a@.subrange(0, b@.len() as int) =~= a@);
        }
    }
    r
}

/// Whether `s` begins with `p`.
pub fn has_prefix(s: &str, p: &str) -> (r: bool)
    ensures
        r == starts_with(s@, p@),
{
    let n = s.unicode_len();
    let m = p.unicode_len();
    if m > n {
        return false;
    }
    let mut i: usize = 0;
    while i < m
        invariant
            n == s@.len(),
            m == p@.len(),
            m <= n,
            i <= m,
            s@.subrange(0, i as int) == p@.subrange(0, i as int),
        decreases m - i,
    {
        if s.get_char(i) != p.get_char(i) {
            assert(s@.subrange(0, m as int)[i as int] != p@[i as int]);
            return false;
        }
        assert(s@.subrange(0, i + 1) =~= s@.subrange(0, i as int).push(s@[i as int]));
        assert(p@.subrange(0, i + 1) =~= p@.subrange(0, i as int).push(p@[i as int]));
        i = i + 1;
    }
    assert(p@.subrange(0, m as int) =~= p@);
    true
}

} // verus!
