//! Line-level text primitives: splitting a text into its lines and joining
//! lines back with newline separators. The container-file parser is built on
//! these.

use vstd::prelude::*;
use vstd::string::*;

verus! {

/// A line holds no newline character.
pub open spec fn line_free(l: Seq<char>) -> bool {
    forall|i: int| 0 <= i < l.len() ==> l[i] != '\n'
}

/// Number of characters before the first newline of `s` (the length of `s`
/// when it holds none).
pub open spec fn first_newline(s: Seq<char>) -> int
    decreases s.len(),
{
    if s.len() == 0 {
        0
    } else if s[0] == '\n' {
        0
    } else {
        1 + first_newline(s.skip(1))
    }
}

pub proof fn lemma_first_newline_bounds(s: Seq<char>)
    ensures
        0 <= first_newline(s) <= s.len(),
        first_newline(s) < s.len() ==> s[first_newline(s)] == '\n',
        forall|j: int| 0 <= j < first_newline(s) ==> s[j] != '\n',
    decreases s.len(),
{
    if s.len() == 0 {
    } else if s[0] == '\n' {
    } else {
        lemma_first_newline_bounds(s.skip(1));
        assert forall|j: int| 0 <= j < first_newline(s) implies s[j] != '\n' by {
            if j > 0 {
                assert(s.skip(1)[j - 1] == s[j]);
            }
        }
    }
}

/// A position with no newline before it, and a newline (or the end) at it,
/// is the first newline.
pub proof fn lemma_first_newline_is(s: Seq<char>, i: int)
    requires
        0 <= i <= s.len(),
        forall|j: int| 0 <= j < i ==> s[j] != '\n',
        i < s.len() ==> s[i] == '\n',
    ensures
        first_newline(s) == i,
    decreases s.len(),
{
    if s.len() == 0 {
    } else if s[0] == '\n' {
    } else {
        assert(i > 0);
        assert forall|j: int| 0 <= j < i - 1 implies s.skip(1)[j] != '\n' by {
            assert(s.skip(1)[j] == s[j + 1]);
        }
        assert(i - 1 < s.skip(1).len() ==> s.skip(1)[i - 1] == s[i]);
        lemma_first_newline_is(s.skip(1), i - 1);
    }
}

/// The lines of a text: maximal newline-free stretches. A trailing newline
/// does not open a final empty line, and the empty text has no lines.
pub open spec fn spec_lines(s: Seq<char>) -> Seq<Seq<char>>
    decreases s.len(),
{
    if s.len() == 0 {
        Seq::empty()
    } else {
        let i = first_newline(s);
        if 0 <= i && i < s.len() {
            seq![s.take(i)] + spec_lines(s.skip(i + 1))
        } else {
            seq![s]
        }
    }
}

pub proof fn lemma_lines_line_free(s: Seq<char>)
    ensures
        forall|k: int| 0 <= k < spec_lines(s).len() ==> line_free(#[trigger] spec_lines(s)[k]),
    decreases s.len(),
{
    if s.len() == 0 {
    } else {
        lemma_first_newline_bounds(s);
        let i = first_newline(s);
        if 0 <= i && i < s.len() {
            lemma_lines_line_free(s.skip(i + 1));
            assert(line_free(s.take(i)));
            assert forall|k: int| 0 <= k < spec_lines(s).len() implies line_free(
                #[trigger] spec_lines(s)[k],
            ) by {
                if k > 0 {
                    assert(spec_lines(s)[k] == spec_lines(s.skip(i + 1))[k - 1]);
                }
            }
        } else {
            assert(line_free(s));
        }
    }
}

/// Lines joined with a single newline between neighbours and nothing at
/// either end.
pub open spec fn spec_join_lines(ls: Seq<Seq<char>>) -> Seq<char>
    decreases ls.len(),
{
    if ls.len() == 0 {
        Seq::empty()
    } else if ls.len() == 1 {
        ls[0]
    } else {
        ls[0] + seq!['\n'] + spec_join_lines(ls.skip(1))
    }
}

pub proof fn lemma_join_push(ls: Seq<Seq<char>>, x: Seq<char>)
    requires
        ls.len() > 0,
    ensures
        spec_join_lines(ls.push(x)) == spec_join_lines(ls) + seq!['\n'] + x,
    decreases ls.len(),
{
    if ls.len() == 1 {
        assert(ls.push(x)[0] == ls[0]);
        assert(ls.push(x).skip(1) =~= seq![x]);
        assert(spec_join_lines(seq![x]) == x);
        assert(spec_join_lines(ls.push(x)) =~= ls[0] + seq!['\n'] + x);
    } else {
        assert(ls.push(x).skip(1) =~= ls.skip(1).push(x));
        lemma_join_push(ls.skip(1), x);
        assert(spec_join_lines(ls.push(x)) =~= spec_join_lines(ls) + seq!['\n'] + x);
    }
}

/// Splitting a joined line list recovers the list, as long as no line holds
/// a newline and the final line is not empty.
pub proof fn lemma_lines_of_join(ls: Seq<Seq<char>>)
    requires
        forall|k: int| 0 <= k < ls.len() ==> line_free(#[trigger] ls[k]),
        ls.len() > 0 ==> ls.last().len() > 0,
    ensures
        spec_lines(spec_join_lines(ls)) == ls,
    decreases ls.len(),
{
    if ls.len() == 0 {
    } else if ls.len() == 1 {
        let s = spec_join_lines(ls);
        assert(s == ls[0]);
        lemma_first_newline_is(s, s.len() as int);
        assert(spec_lines(s) =~= ls);
    } else {
        let s = spec_join_lines(ls);
        let rest = spec_join_lines(ls.skip(1));
        assert(s == ls[0] + seq!['\n'] + rest);
        let n0 = ls[0].len() as int;
        assert forall|j: int| 0 <= j < n0 implies s[j] != '\n' by {
            assert(s[j] == ls[0][j]);
        }
        assert(s[n0] == '\n');
        lemma_first_newline_is(s, n0);
        assert(s.take(n0) =~= ls[0]);
        assert(s.skip(n0 + 1) =~= rest);
        assert(ls.skip(1).last() == ls.last());
        lemma_lines_of_join(ls.skip(1));
        assert(spec_lines(s) =~= seq![ls[0]] + ls.skip(1));
        assert(seq![ls[0]] + ls.skip(1) =~= ls);
    }
}

/// Joining the lines of a text recovers the text, as long as the text does
/// not end with a newline.
pub proof fn lemma_join_of_lines(s: Seq<char>)
    requires
        s.len() > 0 ==> s.last() != '\n',
    ensures
        spec_join_lines(spec_lines(s)) == s,
    decreases s.len(),
{
    if s.len() == 0 {
    } else {
        lemma_first_newline_bounds(s);
        let i = first_newline(s);
        if 0 <= i && i < s.len() {
            let rest = s.skip(i + 1);
            assert(rest.len() > 0) by {
                if i + 1 == s.len() {
                    assert(s.last() == s[i]);
                }
            }
            assert(rest.last() == s.last());
            lemma_join_of_lines(rest);
            assert(spec_lines(rest).len() > 0);
            let ls = spec_lines(s);
            assert(ls == seq![s.take(i)] + spec_lines(rest));
            assert(ls.len() >= 2);
            assert(ls[0] == s.take(i));
            assert(ls.skip(1) =~= spec_lines(rest));
            assert(spec_join_lines(ls) =~= s.take(i) + seq!['\n'] + rest);
            assert(s.take(i) + seq!['\n'] + rest =~= s);
        } else {
            assert(spec_lines(s) == seq![s]);
        }
    }
}

/// A text that does not end with a newline ends with a nonempty line.
pub proof fn lemma_lines_last_nonempty(s: Seq<char>)
    requires
        s.len() > 0,
        s.last() != '\n',
    ensures
        spec_lines(s).len() > 0,
        spec_lines(s).last().len() > 0,
    decreases s.len(),
{
    lemma_first_newline_bounds(s);
    let i = first_newline(s);
    if 0 <= i && i < s.len() {
        let rest = s.skip(i + 1);
        assert(rest.len() > 0) by {
            if i + 1 == s.len() {
                assert(s.last() == s[i]);
            }
        }
        assert(rest.last() == s.last());
        lemma_lines_last_nonempty(rest);
        assert(spec_lines(s).last() == spec_lines(rest).last());
    }
}

/// A line list whose final line is empty joins to a text that ends with a
/// newline (or is empty altogether, when the list is that single line).
pub proof fn lemma_join_last_empty(ls: Seq<Seq<char>>)
    requires
        ls.len() >= 2,
        ls.last().len() == 0,
    ensures
        spec_join_lines(ls).len() > 0,
        spec_join_lines(ls).last() == '\n',
    decreases ls.len(),
{
    if ls.len() == 2 {
        assert(spec_join_lines(ls.skip(1)) == ls.skip(1)[0]);
        assert(ls.skip(1)[0] == ls[1]);
        assert(spec_join_lines(ls) =~= ls[0] + seq!['\n']);
    } else {
        assert(ls.skip(1).last() == ls.last());
        lemma_join_last_empty(ls.skip(1));
        let rest = spec_join_lines(ls.skip(1));
        assert(spec_join_lines(ls) == ls[0] + seq!['\n'] + rest);
        assert(spec_join_lines(ls).last() == rest.last());
    }
}

/// Index of the first newline of `s` at or after `from`, scanning to the
/// end; the result speaks of the suffix starting at `from`.
fn find_newline(s: &str, from: usize, n: usize) -> (r: usize)
    requires
        n == s@.len(),
        from <= n,
    ensures
        from <= r <= n,
        r - from == first_newline(s@.skip(from as int)),
    decreases n - from,
{
    let mut i: usize = from;
    while i < n
        invariant
            n == s@.len(),
            from <= i <= n,
            forall|j: int| from <= j < i ==> s@[j] != '\n',
        decreases n - i,
    {
        if s.get_char(i) == '\n' {
            proof {
                let t = s@.skip(from as int);
                assert forall|j: int| 0 <= j < i - from implies t[j] != '\n' by {
                    assert(t[j] == s@[from + j]);
                }
                assert(t[i - from] == s@[i as int]);
                lemma_first_newline_is(t, i - from);
            }
            return i;
        }
        i += 1;
    }
    proof {
        let t = s@.skip(from as int);
        assert forall|j: int| 0 <= j < t.len() implies t[j] != '\n' by {
            assert(t[j] == s@[from + j]);
        }
        lemma_first_newline_is(t, t.len() as int);
    }
    n
}

/// The view of each line of a vector of strings.
pub open spec fn views_of(ls: Seq<String>) -> Seq<Seq<char>> {
    ls.map_values(|l: String| l@)
}

/// Split a text into its lines.
pub fn split_lines(s: &str) -> (r: Vec<String>)
    ensures
        views_of(r@) == spec_lines(s@),
{
    let n = s.unicode_len();
    let mut out: Vec<String> = Vec::new();
    let mut start: usize = 0;
    proof {
        assert(s@.skip(0) =~= s@);
        assert(views_of(out@) + spec_lines(s@) =~= spec_lines(s@));
    }
    while start < n
        invariant
            n == s@.len(),
            start <= n,
            spec_lines(s@) == views_of(out@) + spec_lines(s@.skip(start as int)),
        decreases n - start,
    {
        let j = find_newline(s, start, n);
        let line = s.substring_char(start, j).to_owned();
        proof {
            let t = s@.skip(start as int);
            lemma_first_newline_bounds(t);
            assert(line@ =~= t.take(j - start));
        }
        if j < n {
            out.push(line);
            proof {
                let t = s@.skip(start as int);
                let i = first_newline(t);
                assert(t.len() > 0);
                assert(spec_lines(t) == seq![t.take(i)] + spec_lines(t.skip(i + 1)));
                assert(t.skip(i + 1) =~= s@.skip(j + 1));
                assert(views_of(out@) =~= views_of(out@.drop_last()).push(t.take(i)));
                assert(views_of(out@) + spec_lines(s@.skip(j + 1)) =~= views_of(
                    out@.drop_last(),
                ) + spec_lines(t));
            }
            start = j + 1;
        } else {
            proof {
                let t = s@.skip(start as int);
                let i = first_newline(t);
                assert(t.len() > 0);
                assert(i == t.len());
                assert(line@ =~= t);
                assert(spec_lines(t) == seq![t]);
            }
            out.push(line);
            proof {
                assert(views_of(out@) =~= views_of(out@.drop_last()) + seq![line@]);
                assert(spec_lines(s@.skip(n as int)) =~= Seq::<Seq<char>>::empty());
                assert(views_of(out@) + spec_lines(s@.skip(n as int)) =~= views_of(
                    out@.drop_last(),
                ) + seq![line@]);
            }
            start = n;
        }
    }
    proof {
        assert(spec_lines(s@.skip(start as int)) =~= Seq::<Seq<char>>::empty());
        assert(views_of(out@) + spec_lines(s@.skip(start as int)) =~= views_of(out@));
    }
    out
}

/// Character-for-character string equality.
pub fn str_eq(a: &str, b: &str) -> (r: bool)
    ensures
        r == (a@ == b@),
{
    let na = a.unicode_len();
    let nb = b.unicode_len();
    if na != nb {
        return false;
    }
    let mut i: usize = 0;
    while i < na
        invariant
            na == a@.len(),
            na == b@.len(),
            i <= na,
            forall|j: int| 0 <= j < i ==> a@[j] == b@[j],
        decreases na - i,
    {
        if a.get_char(i) != b.get_char(i) {
            return false;
        }
        i += 1;
    }
    proof {
        assert(a@ =~= b@);
    }
    true
}

/// Join the lines in `[lo, hi)` of `lines` with newlines.
pub fn join_lines(lines: &Vec<String>, lo: usize, hi: usize) -> (r: String)
    requires
        lo <= hi <= lines@.len(),
    ensures
        r@ == spec_join_lines(views_of(lines@.subrange(lo as int, hi as int))),
{
    let mut acc = String::new();
    let mut i: usize = lo;
    while i < hi
        invariant
            lo <= i <= hi <= lines@.len(),
            acc@ == spec_join_lines(views_of(lines@.subrange(lo as int, i as int))),
        decreases hi - i,
    {
        if i > lo {
            acc.append("\n");
            proof {
                reveal_strlit("\n");
                assert(acc@ =~= spec_join_lines(
                    views_of(lines@.subrange(lo as int, i as int)),
                ) + seq!['\n']);
            }
        }
        acc.append(lines[i].as_str());
        proof {
            let prev = views_of(lines@.subrange(lo as int, i as int));
            let cur = views_of(lines@.subrange(lo as int, i + 1));
            assert(cur =~= prev.push(lines@[i as int]@));
            if i > lo {
                lemma_join_push(prev, lines@[i as int]@);
                assert(acc@ =~= spec_join_lines(cur));
            } else {
                assert(cur.len() == 1);
                assert(cur[0] == lines@[i as int]@);
                assert(acc@ =~= spec_join_lines(cur));
            }
        }
        i += 1;
    }
    proof {
        if lo == hi {
            assert(views_of(lines@.subrange(lo as int, hi as int)) =~= Seq::<Seq<char>>::empty());
        }
    }
    acc
}

} // verus!
