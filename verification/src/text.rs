//! Character-level helpers shared by the parsers: conversion between strings
//! and character vectors, Unicode white space, trimming, line splitting and
//! substring search, each stated over `Seq<char>`.

use vstd::prelude::*;

verus! {

broadcast use vstd::string::group_string_axioms;

/// The characters of `s`, in order.
pub fn chars_of(s: &str) -> (r: Vec<char>)
    ensures
        r@ == s@,
{
    let mut v: Vec<char> = Vec::new();
    for c in it: s.chars()
        invariant
            v@ == it.seq().take(it.index() as int),
    {
        v.push(c);
    }
    v
}

/// Appends one character to a string (`String::push`).
#[verifier::external_body]
pub(crate) fn push_char(s: &mut String, c: char)
    ensures
        final(s)@ == old(s)@.push(c),
{
    s.push(c);
}

/// The string made of the characters of `v`, in order.
pub fn string_from_chars(v: &[char]) -> (r: String)
    ensures
        r@ == v@,
{
    let mut s = String::new();
    let mut i: usize = 0;
    while i < v.len()
        invariant
            i <= v@.len(),
            s@ == v@.take(i as int),
        decreases v@.len() - i,
    {
        push_char(&mut s, v[i]);
        assert(v@.take(i as int).push(v@[i as int]) =~= v@.take(i + 1));
        i += 1;
    }
    assert(v@.take(v@.len() as int) =~= v@);
    s
}


/// The characters with the Unicode `White_Space` property.
pub open spec fn is_white_space(c: char) -> bool {
    let u = c as u32;
    ||| 0x9 <= u <= 0xd
    ||| u == 0x20
    ||| u == 0x85
    ||| u == 0xa0
    ||| u == 0x1680
    ||| 0x2000 <= u <= 0x200a
    ||| u == 0x2028
    ||| u == 0x2029
    ||| u == 0x202f
    ||| u == 0x205f
    ||| u == 0x3000
}

/// `char::is_whitespace`: whether `c` has the Unicode `White_Space` property.
#[verifier::external_body]
pub(crate) fn is_whitespace(c: char) -> (r: bool)
    ensures
        r == is_white_space(c),
{
    c.is_whitespace()
}

/// `s` without its leading and trailing white space (what `str::trim` gives).
pub open spec fn trimmed(s: Seq<char>) -> Seq<char>
    decreases s.len(),
{
    if s.len() > 0 && is_white_space(s[0]) {
        trimmed(s.drop_first())
    } else if s.len() > 0 && is_white_space(s.last()) {
        trimmed(s.drop_last())
    } else {
        s
    }
}

/// A trimmed text starts and ends with no white space.
pub proof fn lemma_trimmed_edges(s: Seq<char>)
    ensures
        trimmed(s).len() > 0 ==> !is_white_space(trimmed(s)[0]) && !is_white_space(trimmed(s).last()),
    decreases s.len(),
{
    if s.len() > 0 && is_white_space(s[0]) {
        lemma_trimmed_edges(s.drop_first());
    } else if s.len() > 0 && is_white_space(s.last()) {
        lemma_trimmed_edges(s.drop_last());
    }
}

/// The bounds of the trimmed part of `v[lo..hi]`.
pub fn trim_range(v: &[char], lo: usize, hi: usize) -> (r: (usize, usize))
    requires
        lo <= hi <= v@.len(),
    ensures
        lo <= r.0 <= r.1 <= hi,
        v@.subrange(r.0 as int, r.1 as int) == trimmed(v@.subrange(lo as int, hi as int)),
{
    let ghost whole = v@.subrange(lo as int, hi as int);
    let mut a = lo;
    let mut b = hi;
    while a < b && is_whitespace(v[a])
        invariant
            lo <= a <= b == hi <= v@.len(),
            trimmed(v@.subrange(a as int, b as int)) == trimmed(whole),
        decreases b - a,
    {
        assert(v@.subrange(a as int, b as int).drop_first() =~= v@.subrange(a + 1, b as int));
        a += 1;
    }
    while a < b && is_whitespace(v[b - 1])
        invariant
            lo <= a <= b <= hi <= v@.len(),
            a < b ==> !is_white_space(v@[a as int]),
            trimmed(v@.subrange(a as int, b as int)) == trimmed(whole),
        decreases b - a,
    {
        assert(v@.subrange(a as int, b as int).drop_last() =~= v@.subrange(a as int, b - 1));
        b -= 1;
    }
    (a, b)
}

/// The trimmed characters of `v[lo..hi]` as a string.
pub fn trimmed_string(v: &[char], lo: usize, hi: usize) -> (r: String)
    requires
        lo <= hi <= v@.len(),
    ensures
        r@ == trimmed(v@.subrange(lo as int, hi as int)),
{
    let (a, b) = trim_range(v, lo, hi);
    let part = vstd::slice::slice_subrange(v, a, b);
    string_from_chars(part)
}

/// The index of the first `c` in `s`, if any.
pub open spec fn find_spec(s: Seq<char>, c: char) -> Option<int>
    decreases s.len(),
{
    if s.len() == 0 {
        None
    } else if s[0] == c {
        Some(0)
    } else {
        match find_spec(s.drop_first(), c) {
            Some(i) => Some(i + 1),
            None => None,
        }
    }
}

/// What `find_spec` means.
pub proof fn lemma_find_spec(s: Seq<char>, c: char)
    ensures
        find_spec(s, c) matches Some(i) ==> 0 <= i < s.len() && s[i] == c && forall|j: int|
            0 <= j < i ==> s[j] != c,
        find_spec(s, c) is None ==> forall|j: int| 0 <= j < s.len() ==> s[j] != c,
    decreases s.len(),
{
    if s.len() > 0 && s[0] != c {
        lemma_find_spec(s.drop_first(), c);
        if let Some(i) = find_spec(s, c) {
            assert forall|j: int| 0 <= j < i implies s[j] != c by {
                if j > 0 {
                    assert(s[j] == s.drop_first()[j - 1]);
                }
            }
        } else {
            assert forall|j: int| 0 <= j < s.len() implies s[j] != c by {
                if j > 0 {
                    assert(s[j] == s.drop_first()[j - 1]);
                }
            }
        }
    }
}

/// `find_spec` is determined by the position of the first match.
pub proof fn lemma_find_spec_at(s: Seq<char>, c: char, i: int)
    requires
        0 <= i <= s.len(),
        forall|j: int| 0 <= j < i ==> s[j] != c,
        i < s.len() ==> s[i] == c,
    ensures
        find_spec(s, c) == (if i < s.len() { Some(i) } else { None::<int> }),
    decreases s.len(),
{
    if s.len() > 0 && i > 0 {
        assert forall|j: int| 0 <= j < i - 1 implies s.drop_first()[j] != c by {
            assert(s.drop_first()[j] == s[j + 1]);
        }
        lemma_find_spec_at(s.drop_first(), c, i - 1);
    }
}

/// The first index of `c` in `v[lo..hi]`, relative to `lo`.
pub fn find_char(v: &[char], lo: usize, hi: usize, c: char) -> (r: Option<usize>)
    requires
        lo <= hi <= v@.len(),
    ensures
        r matches Some(i) ==> lo <= i < hi && find_spec(v@.subrange(lo as int, hi as int), c)
            == Some(i - lo),
        r is None ==> find_spec(v@.subrange(lo as int, hi as int), c) is None,
{
    let ghost s = v@.subrange(lo as int, hi as int);
    let mut i = lo;
    while i < hi
        invariant
            lo <= i <= hi <= v@.len(),
            s == v@.subrange(lo as int, hi as int),
            forall|j: int| 0 <= j < i - lo ==> s[j] != c,
        decreases hi - i,
    {
        if v[i] == c {
            proof {
                lemma_find_spec_at(s, c, i - lo);
            }
            return Some(i);
        }
        i += 1;
    }
    proof {
        lemma_find_spec_at(s, c, s.len() as int);
    }
    None
}

/// Whether `p` is a prefix of `v[lo..hi]`.
pub fn has_prefix_at(v: &[char], lo: usize, hi: usize, p: &[char]) -> (r: bool)
    requires
        lo <= hi <= v@.len(),
    ensures
        r == p@.is_prefix_of(v@.subrange(lo as int, hi as int)),
{
    if p.len() > hi - lo {
        return false;
    }
    let mut i: usize = 0;
    while i < p.len()
        invariant
            p@.len() <= hi - lo,
            lo <= hi <= v@.len(),
            i <= p@.len(),
            forall|j: int| 0 <= j < i ==> p@[j] == v@[lo + j],
        decreases p@.len() - i,
    {
        if p[i] != v[lo + i] {
            assert(p@[i as int] != v@.subrange(lo as int, hi as int).subrange(0, p@.len() as int)[i as int]);
            return false;
        }
        i += 1;
    }
    assert(p@ =~= v@.subrange(lo as int, hi as int).subrange(0, p@.len() as int));
    true
}

/// Whether `p` is a suffix of `v[lo..hi]`.
pub fn has_suffix_at(v: &[char], lo: usize, hi: usize, p: &[char]) -> (r: bool)
    requires
        lo <= hi <= v@.len(),
    ensures
        r == p@.is_suffix_of(v@.subrange(lo as int, hi as int)),
{
    if p.len() > hi - lo {
        return false;
    }
    let start = hi - p.len();
    let r = has_prefix_at(v, start, hi, p);
    assert(v@.subrange(start as int, hi as int) =~= v@.subrange(lo as int, hi as int).subrange(
        (hi - lo - p@.len()) as int,
        (hi - lo) as int,
    ));
    r
}

/// Whether the two character sequences are equal.
pub fn chars_eq(a: &[char], b: &[char]) -> (r: bool)
    ensures
        r == (a@ == b@),
{
    if a.len() != b.len() {
        return false;
    }
    let r = has_prefix_at(a, 0, a.len(), b);
    assert(a@.subrange(0, a@.len() as int) =~= a@);
    r
}

/// Whether `v[lo..hi]` equals `p`.
pub fn range_eq(v: &[char], lo: usize, hi: usize, p: &[char]) -> (r: bool)
    requires
        lo <= hi <= v@.len(),
    ensures
        r == (v@.subrange(lo as int, hi as int) == p@),
{
    if hi - lo != p.len() {
        return false;
    }
    let r = has_prefix_at(v, lo, hi, p);
    assert(v@.subrange(lo as int, hi as int).subrange(0, p@.len() as int) =~= v@.subrange(
        lo as int,
        hi as int,
    ));
    r
}


/// How many characters the line starting at `start` has before its `'\n'`
/// (or before the end of `s`).
pub open spec fn line_len(s: Seq<char>, start: int) -> nat
    decreases s.len() - start,
{
    if start < 0 || start >= s.len() || s[start] == '\n' {
        0
    } else {
        1 + line_len(s, start + 1)
    }
}

/// Where the line starting at `start` ends: at the next `'\n'`, or at the end.
pub open spec fn line_end(s: Seq<char>, start: int) -> int {
    start + line_len(s, start)
}

/// The text of the line `s[start..end]`, without the `'\r'` of a `"\r\n"`
/// ending.
pub open spec fn line_text(s: Seq<char>, start: int, end: int) -> Seq<char> {
    if end < s.len() && end > start && s[end - 1] == '\r' {
        s.subrange(start, end - 1)
    } else {
        s.subrange(start, end)
    }
}

/// The lines of `s[start..]`.
pub open spec fn lines_from(s: Seq<char>, start: int) -> Seq<Seq<char>>
    decreases s.len() - start,
{
    if start < 0 || start >= s.len() {
        Seq::empty()
    } else {
        let e = line_end(s, start);
        if e >= s.len() {
            seq![line_text(s, start, e)]
        } else {
            seq![line_text(s, start, e)] + lines_from(s, e + 1)
        }
    }
}

/// The lines of `s`, as `str::lines` gives them: split at `'\n'`, a `'\r'`
/// before the `'\n'` dropped, no empty line after a final `'\n'`.
pub open spec fn lines_of(s: Seq<char>) -> Seq<Seq<char>> {
    lines_from(s, 0)
}

proof fn lemma_line_end_bounds(s: Seq<char>, start: int)
    requires
        0 <= start <= s.len(),
    ensures
        start <= line_end(s, start) <= s.len(),
        line_end(s, start) < s.len() ==> s[line_end(s, start)] == '\n',
    decreases s.len() - start,
{
    if start < s.len() && s[start] != '\n' {
        lemma_line_end_bounds(s, start + 1);
    }
}

/// The bounds of each line of `v`, in order.
pub fn line_ranges(v: &[char]) -> (r: Vec<(usize, usize)>)
    ensures
        r@.len() == lines_of(v@).len(),
        forall|k: int| 0 <= k < r@.len() ==> (#[trigger] r@[k]).0 <= r@[k].1 <= v@.len(),
        forall|k: int|
            0 <= k < r@.len() ==> v@.subrange(r@[k].0 as int, r@[k].1 as int) == #[trigger] lines_of(
                v@,
            )[k],
{
    let ghost s = v@;
    let mut out: Vec<(usize, usize)> = Vec::new();
    let ghost mut done: Seq<Seq<char>> = Seq::empty();
    let mut start: usize = 0;
    let n = v.len();
    while start < n
        invariant
            n == v@.len(),
            s == v@,
            start <= n,
            lines_of(s) == done + lines_from(s, start as int),
            out@.len() == done.len(),
            forall|k: int| 0 <= k < out@.len() ==> (#[trigger] out@[k]).0 <= out@[k].1 <= n,
            forall|k: int|
                0 <= k < out@.len() ==> s.subrange(out@[k].0 as int, out@[k].1 as int)
                    == #[trigger] done[k],
        decreases n - start,
    {
        let mut end = start;
        while end < n && v[end] != '\n'
            invariant
                n == v@.len(),
                s == v@,
                start <= end <= n,
                line_end(s, start as int) == line_end(s, end as int),
            decreases n - end,
        {
            end += 1;
        }
        proof {
            lemma_line_end_bounds(s, start as int);
        }
        assert(end == line_end(s, start as int));
        let text_end = if end < n && end > start && v[end - 1] == '\r' {
            end - 1
        } else {
            end
        };
        let ghost line = line_text(s, start as int, end as int);
        assert(s.subrange(start as int, text_end as int) == line);
        let ghost old_done = done;
        proof {
            if end < n {
                assert(lines_from(s, start as int) == seq![line] + lines_from(s, end + 1));
                assert(done + lines_from(s, start as int) =~= done.push(line) + lines_from(
                    s,
                    end + 1,
                ));
            } else {
                assert(lines_from(s, end + 1) =~= Seq::<Seq<char>>::empty());
                assert(done + lines_from(s, start as int) =~= done.push(line) + lines_from(
                    s,
                    end + 1,
                ));
            }
            done = done.push(line);
        }
        let ghost old_out = out@;
        out.push((start, text_end));
        assert forall|k: int| 0 <= k < out@.len() implies s.subrange(
            out@[k].0 as int,
            out@[k].1 as int,
        ) == #[trigger] done[k] by {
            if k < old_out.len() {
                assert(out@[k] == old_out[k]);
                assert(done[k] == old_done[k]);
            }
        }
        if end == n {
            start = n;
            assert(lines_from(s, end + 1) =~= Seq::<Seq<char>>::empty());
            assert(lines_from(s, n as int) =~= Seq::<Seq<char>>::empty());
        } else {
            start = end + 1;
        }
    }
    assert(lines_from(s, start as int) =~= Seq::<Seq<char>>::empty());
    assert(done + lines_from(s, start as int) =~= done);
    assert forall|k: int| 0 <= k < out@.len() implies v@.subrange(
        out@[k].0 as int,
        out@[k].1 as int,
    ) == #[trigger] lines_of(v@)[k] by {
        assert(done[k] == lines_of(v@)[k]);
    }
    out
}

} // verus!
