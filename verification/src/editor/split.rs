//! Detecting a text's line delimiter and splitting it into lines.
//!
//! The delimiter is detected once, by first-match precedence CRLF > LF > CR,
//! with LF the default for delimiter-free text. Splitting is leftmost-first
//! on the detected delimiter; delimiters are never part of a line.
use vstd::prelude::*;

use crate::text::{chars_vec, string_from_range};

verus! {

pub const CRLF: &'static str = "\r\n";

pub const LF: &'static str = "\n";

pub const CR: &'static str = "\r";

pub open spec fn crlf() -> Seq<char> {
    seq!['\r', '\n']
}

pub open spec fn lf() -> Seq<char> {
    seq!['\n']
}

pub open spec fn cr() -> Seq<char> {
    seq!['\r']
}

/// Whether `d` occurs in `t` starting at position `i`.
pub open spec fn matches_at(t: Seq<char>, d: Seq<char>, i: int) -> bool {
    0 <= i && i + d.len() <= t.len() && t.subrange(i, i + d.len()) == d
}

/// Whether `d` occurs anywhere in `t`.
pub open spec fn has_match(t: Seq<char>, d: Seq<char>) -> bool {
    exists|i: int| matches_at(t, d, i)
}

/// The delimiter detected for `t`: the first of CRLF, LF, CR that occurs in
/// it, LF when none does.
pub open spec fn detected_delimiter(t: Seq<char>) -> Seq<char> {
    if has_match(t, crlf()) {
        crlf()
    } else if has_match(t, lf()) {
        lf()
    } else if has_match(t, cr()) {
        cr()
    } else {
        lf()
    }
}

/// The position of the leftmost occurrence of `d` in `t`, or -1.
pub open spec fn first_match(t: Seq<char>, d: Seq<char>) -> int
    decreases t.len(),
{
    if d.len() == 0 || t.len() < d.len() {
        -1
    } else if t.take(d.len() as int) == d {
        0
    } else {
        let r = first_match(t.drop_first(), d);
        if r == -1 {
            -1
        } else {
            1 + r
        }
    }
}

/// `t` split on every leftmost-first occurrence of `d`; one piece, `t`
/// itself, when `d` does not occur.
pub open spec fn split_spec(t: Seq<char>, d: Seq<char>) -> Seq<Seq<char>>
    decreases t.len(),
{
    let i = first_match(t, d);
    if d.len() == 0 || i < 0 || i + d.len() > t.len() {
        seq![t]
    } else {
        seq![t.take(i)] + split_spec(t.skip(i + d.len() as int), d)
    }
}

/// A split always yields at least one line.
pub proof fn lemma_split_spec_len(t: Seq<char>, d: Seq<char>)
    ensures
        split_spec(t, d).len() >= 1,
    decreases t.len(),
{
    let i = first_match(t, d);
    if !(d.len() == 0 || i < 0 || i + d.len() > t.len()) {
        lemma_split_spec_len(t.skip(i + d.len() as int), d);
    }
}

proof fn lemma_matches_shift(t: Seq<char>, d: Seq<char>, i: int)
    requires
        i >= 1,
        t.len() >= 1,
    ensures
        matches_at(t, d, i) == matches_at(t.drop_first(), d, i - 1),
{
    if i + d.len() <= t.len() {
        assert(t.subrange(i, i + d.len() as int) =~= t.drop_first().subrange(
            i - 1,
            i - 1 + d.len() as int,
        ));
    }
}

/// `first_match` is the leftmost occurrence: nothing matches before it, and
/// it matches unless it is -1, in which case nothing matches at all.
pub proof fn lemma_first_match(t: Seq<char>, d: Seq<char>)
    requires
        d.len() >= 1,
    ensures
        first_match(t, d) >= -1,
        first_match(t, d) == -1 ==> forall|i: int| !matches_at(t, d, i),
        first_match(t, d) >= 0 ==> matches_at(t, d, first_match(t, d)),
        first_match(t, d) >= 0 ==> forall|j: int| j < first_match(t, d) ==> !matches_at(t, d, j),
    decreases t.len(),
{
    let fm = first_match(t, d);
    if t.len() < d.len() {
        assert(fm == -1);
        assert(forall|i: int| !matches_at(t, d, i));
    } else if t.take(d.len() as int) == d {
        assert(fm == 0);
        assert(t.subrange(0, d.len() as int) =~= t.take(d.len() as int));
        assert(matches_at(t, d, 0));
    } else {
        lemma_first_match(t.drop_first(), d);
        let r = first_match(t.drop_first(), d);
        assert(t.subrange(0, d.len() as int) =~= t.take(d.len() as int));
        assert(!matches_at(t, d, 0));
        if r == -1 {
            assert(fm == -1);
            assert forall|i: int| !matches_at(t, d, i) by {
                if i >= 1 {
                    lemma_matches_shift(t, d, i);
                }
            }
        } else {
            assert(fm == 1 + r);
            lemma_matches_shift(t, d, fm);
            assert forall|j: int| j < fm implies !matches_at(t, d, j) by {
                if j >= 1 {
                    lemma_matches_shift(t, d, j);
                }
            }
        }
    }
}

/// An occurrence with nothing matching before it is the leftmost one.
pub proof fn lemma_first_match_unique(t: Seq<char>, d: Seq<char>, k: int)
    requires
        d.len() >= 1,
        matches_at(t, d, k),
        forall|j: int| 0 <= j < k ==> !matches_at(t, d, j),
    ensures
        first_match(t, d) == k,
{
    lemma_first_match(t, d);
    let fm = first_match(t, d);
    if fm == -1 {
        assert(!matches_at(t, d, k));
    } else if fm < k {
        assert(!matches_at(t, d, fm));
    } else if fm > k {
        assert(!matches_at(t, d, k));
    }
}

/// Whether `d` occurs in `v` at position `j`.
fn match_at(v: &Vec<char>, d: &Vec<char>, j: usize) -> (r: bool)
    requires
        j + d@.len() <= v@.len(),
    ensures
        r == matches_at(v@, d@, j as int),
{
    let n = v.len();
    let mut i: usize = 0;
    while i < d.len()
        invariant
            n == v@.len(),
            j + d@.len() <= v@.len(),
            i <= d@.len(),
            forall|x: int| 0 <= x < i ==> v@[j + x] == d@[x],
        decreases d@.len() - i,
    {
        if v[j + i] != d[i] {
            proof {
                assert(v@.subrange(j as int, j + d@.len())[i as int] != d@[i as int]);
            }
            return false;
        }
        i = i + 1;
    }
    proof {
        assert(v@.subrange(j as int, j + d@.len()) =~= d@);
    }
    true
}

/// The position of the leftmost occurrence of `d` in `v` at or after `from`.
pub fn find_from(v: &Vec<char>, d: &Vec<char>, from: usize) -> (r: Option<usize>)
    requires
        d@.len() >= 1,
        from <= v@.len(),
    ensures
        match r {
            Some(k) => from <= k && k + d@.len() <= v@.len() && first_match(
                v@.skip(from as int),
                d@,
            ) == k - from,
            None => first_match(v@.skip(from as int), d@) == -1,
        },
{
    let n = v.len();
    let dl = d.len();
    let mut j: usize = from;
    if dl <= n {
        while j <= n - dl
            invariant
                n == v@.len(),
                dl == d@.len(),
                1 <= dl <= n,
                from <= j,
                j <= n + 1,
                forall|x: int| from <= x < j ==> !matches_at(v@, d@, x),
            decreases n - j,
        {
            if match_at(v, d, j) {
                proof {
                    lemma_find_translate(v@, d@, from as int, j as int);
                }
                return Some(j);
            }
            j = j + 1;
        }
    }
    proof {
        assert forall|x: int| !matches_at(v@.skip(from as int), d@, x) by {
            lemma_matches_unshift(v@, d@, from as int, x);
            if x >= 0 && matches_at(v@, d@, from + x) {
                assert(from + x + d@.len() <= v@.len());
                assert(dl <= n);
                assert(from + x < j);
            }
        }
        lemma_first_match(v@.skip(from as int), d@);
        if first_match(v@.skip(from as int), d@) >= 0 {
            assert(matches_at(v@.skip(from as int), d@, first_match(v@.skip(from as int), d@)));
        }
    }
    None
}

proof fn lemma_matches_unshift(t: Seq<char>, d: Seq<char>, from: int, x: int)
    requires
        0 <= from <= t.len(),
    ensures
        matches_at(t.skip(from), d, x) == (x >= 0 && matches_at(t, d, from + x)),
{
    if 0 <= x && x + d.len() <= t.len() - from {
        assert(t.skip(from).subrange(x, x + d.len() as int) =~= t.subrange(
            from + x,
            from + x + d.len() as int,
        ));
    }
}

proof fn lemma_find_translate(t: Seq<char>, d: Seq<char>, from: int, k: int)
    requires
        d.len() >= 1,
        0 <= from <= k,
        matches_at(t, d, k),
        forall|x: int| from <= x < k ==> !matches_at(t, d, x),
    ensures
        first_match(t.skip(from), d) == k - from,
{
    lemma_matches_unshift(t, d, from, k - from);
    assert forall|j: int| 0 <= j < k - from implies !matches_at(t.skip(from), d, j) by {
        lemma_matches_unshift(t, d, from, j);
    }
    lemma_first_match_unique(t.skip(from), d, k - from);
}

/// The lines of `v` split on `d`, leftmost-first.
fn split_chars(v: &Vec<char>, d: &Vec<char>) -> (lines: Vec<String>)
    requires
        d@.len() >= 1,
    ensures
        lines.deep_view() == split_spec(v@, d@),
{
    let n = v.len();
    let mut lines: Vec<String> = Vec::new();
    let mut start: usize = 0;
    proof {
        assert(n == v@.len());
        assert(v@.skip(0) =~= v@);
        assert(lines.deep_view() =~~= Seq::<Seq<char>>::empty());
    }
    loop
        invariant_except_break
            d@.len() >= 1,
            v@.len() <= usize::MAX,
            start <= v@.len(),
            split_spec(v@, d@) == lines.deep_view() + split_spec(v@.skip(start as int), d@),
        ensures
            lines.deep_view() == split_spec(v@, d@),
        decreases v@.len() - start,
    {
        let ghost lv = lines;
        let ghost done = lines.deep_view();
        let ghost rest = v@.skip(start as int);
        match find_from(v, d, start) {
            Some(k) => {
                let line = string_from_range(v, start, k);
                lines.push(line);
                proof {
                    crate::text::lemma_push_deep_view(lines, lv, line);
                    let fm = first_match(rest, d@);
                    assert(fm == k - start);
                    assert(rest.take(fm) =~= v@.subrange(start as int, k as int));
                    assert(rest.skip(fm + d@.len() as int) =~= v@.skip(k + d@.len()));
                    assert(split_spec(rest, d@) == seq![line@] + split_spec(
                        v@.skip(k + d@.len()),
                        d@,
                    ));
                    assert(done + split_spec(rest, d@) =~~= done.push(line@) + split_spec(
                        v@.skip(k + d@.len()),
                        d@,
                    ));
                }
                start = k + d.len();
            },
            None => {
                let line = string_from_range(v, start, v.len());
                lines.push(line);
                proof {
                    crate::text::lemma_push_deep_view(lines, lv, line);
                    assert(rest.take(rest.len() as int) =~= rest);
                    assert(line@ =~= rest);
                    assert(split_spec(rest, d@) == seq![rest]);
                    assert(done + split_spec(rest, d@) =~~= done.push(line@));
                }
                break ;
            },
        }
    }
    lines
}

/// Splits `content` into lines on its detected delimiter, returning the
/// lines and the delimiter.
pub fn split(content: &str) -> (r: (Vec<String>, String))
    ensures
        r.0.deep_view() == split_spec(content@, detected_delimiter(content@)),
        r.1@ == detected_delimiter(content@),
{
    let v = chars_vec(content);
    let delim = detect_in(&v);
    let dv = chars_vec(delim.as_str());
    proof {
        assert(dv@.len() >= 1);
    }
    let lines = split_chars(&v, &dv);
    (lines, delim)
}

/// The delimiter detected for `content`.
pub fn detect_line_delimiter(content: &str) -> (d: String)
    ensures
        d@ == detected_delimiter(content@),
{
    let v = chars_vec(content);
    detect_in(&v)
}

fn detect_in(v: &Vec<char>) -> (d: String)
    ensures
        d@ == detected_delimiter(v@),
        d@.len() >= 1,
{
    proof {
        reveal_strlit("\r\n");
        reveal_strlit("\n");
        reveal_strlit("\r");
    }
    if contains_pair(v, '\r', '\n') {
        proof {
            assert(CRLF@ =~= crlf());
        }
        CRLF.to_owned()
    } else if contains_char(v, '\n') {
        proof {
            assert(LF@ =~= lf());
        }
        LF.to_owned()
    } else if contains_char(v, '\r') {
        proof {
            assert(CR@ =~= cr());
        }
        CR.to_owned()
    } else {
        proof {
            assert(LF@ =~= lf());
        }
        LF.to_owned()
    }
}

fn contains_char(v: &Vec<char>, c: char) -> (r: bool)
    ensures
        r == has_match(v@, seq![c]),
{
    let mut i: usize = 0;
    while i < v.len()
        invariant
            i <= v@.len(),
            forall|j: int| 0 <= j < i ==> v@[j] != c,
        decreases v@.len() - i,
    {
        if v[i] == c {
            proof {
                assert(v@.subrange(i as int, i as int + 1) =~= seq![c]);
                assert(matches_at(v@, seq![c], i as int));
            }
            return true;
        }
        i = i + 1;
    }
    proof {
        assert forall|j: int| !matches_at(v@, seq![c], j) by {
            if 0 <= j && j + 1 <= v@.len() {
                assert(v@.subrange(j, j + 1) =~= seq![v@[j]]);
                if v@.subrange(j, j + 1) == seq![c] {
                    assert(seq![v@[j]][0] == seq![c][0]);
                }
            }
        }
    }
    false
}

fn contains_pair(v: &Vec<char>, c0: char, c1: char) -> (r: bool)
    ensures
        r == has_match(v@, seq![c0, c1]),
{
    if v.len() < 2 {
        proof {
            assert(forall|j: int| !matches_at(v@, seq![c0, c1], j));
        }
        return false;
    }
    let n = v.len();
    let mut i: usize = 0;
    while i <= n - 2
        invariant
            n == v@.len(),
            v@.len() >= 2,
            i <= v@.len() - 1,
            forall|j: int| 0 <= j < i ==> !((#[trigger] v@[j]) == c0 && v@[j + 1] == c1),
        decreases v@.len() - i,
    {
        if v[i] == c0 && v[i + 1] == c1 {
            proof {
                assert(v@.subrange(i as int, i as int + 2) =~= seq![c0, c1]);
                assert(matches_at(v@, seq![c0, c1], i as int));
            }
            return true;
        }
        i = i + 1;
    }
    proof {
        assert forall|j: int| !matches_at(v@, seq![c0, c1], j) by {
            if 0 <= j && j + 2 <= v@.len() {
                assert(v@.subrange(j, j + 2) =~= seq![v@[j], v@[j + 1]]);
                if v@.subrange(j, j + 2) == seq![c0, c1] {
                    assert(seq![v@[j], v@[j + 1]][0] == seq![c0, c1][0]);
                    assert(seq![v@[j], v@[j + 1]][1] == seq![c0, c1][1]);
                }
            }
        }
    }
    false
}

} // verus!
