//! The text formats around compose tables: quoted compose strings with
//! their escapes, `include` lines, `name: value` mapping lines of the locale
//! index files, and the resolution of a locale to its compose file.

use vstd::prelude::*;
use crate::text::{
    chars_of, find_char, find_spec, has_prefix_at, lemma_find_spec, line_ranges, lines_of,
    push_char, string_from_chars, trim_range, trimmed,
};
use vstd::string::StrSliceExecFns;

verus! {

/// Whether `c` is an octal digit.
pub open spec fn is_octal_digit(c: char) -> bool {
    0x30 <= (c as u32) <= 0x37
}

/// The value of a run of octal digits.
pub open spec fn octal_value(s: Seq<char>) -> int
    decreases s.len(),
{
    if s.len() == 0 {
        0
    } else {
        octal_value(s.drop_last()) * 8 + ((s.last() as u32) as int - 48)
    }
}

/// How many octal digits (at most two) `s` starts with.
pub open spec fn octal_run(s: Seq<char>) -> int {
    if s.len() > 0 && is_octal_digit(s[0]) {
        if s.len() > 1 && is_octal_digit(s[1]) {
            2
        } else {
            1
        }
    } else {
        0
    }
}

/// The character a backslash escape other than an octal one stands for.
pub open spec fn escaped_char(e: char) -> char {
    if e == 'n' {
        '\n'
    } else if e == 'r' {
        '\r'
    } else if e == 't' {
        '\t'
    } else {
        e
    }
}

/// The rest of a quoted compose string after its opening quote, with `out`
/// the text read so far: up to the closing quote, with `\\`, `\"`, `\n`,
/// `\r`, `\t` and octal escapes of one to three digits (up to `\377`)
/// replaced; any other escaped character stands for itself.
pub open spec fn quoted_body(s: Seq<char>, out: Seq<char>) -> Option<Seq<char>>
    decreases s.len(),
{
    if s.len() == 0 {
        None
    } else if s[0] == '"' {
        Some(out)
    } else if s[0] == '\\' {
        if s.len() < 2 {
            None
        } else if is_octal_digit(s[1]) {
            let n = octal_run(s.skip(2));
            let v = octal_value(s.subrange(1, 2 + n));
            if v > 255 {
                None
            } else {
                quoted_body(s.skip(2 + n), out.push(v as char))
            }
        } else {
            quoted_body(s.skip(2), out.push(escaped_char(s[1])))
        }
    } else {
        quoted_body(s.skip(1), out.push(s[0]))
    }
}

/// The text of a quoted compose string.
pub open spec fn compose_string_spec(s: Seq<char>) -> Option<Seq<char>> {
    if s.len() > 0 && s[0] == '"' {
        quoted_body(s.skip(1), Seq::empty())
    } else {
        None
    }
}

proof fn lemma_plain_body(s: Seq<char>, tail: Seq<char>, out: Seq<char>)
    requires
        forall|i: int| 0 <= i < s.len() ==> s[i] != '"' && s[i] != '\\',
    ensures
        quoted_body(s + seq!['"'] + tail, out) == Some(out + s),
    decreases s.len(),
{
    let whole = s + seq!['"'] + tail;
    if s.len() == 0 {
        assert(whole[0] == '"');
        assert(out + s =~= out);
    } else {
        assert(whole[0] == s[0]);
        assert(whole.skip(1) =~= s.drop_first() + seq!['"'] + tail);
        lemma_plain_body(s.drop_first(), tail, out.push(s[0]));
        assert(out.push(s[0]) + s.drop_first() =~= out + s);
    }
}

/// A quoted text without quotes or backslashes in it reads back as itself,
/// whatever follows the closing quote.
pub proof fn lemma_plain_string_reads_back(s: Seq<char>, tail: Seq<char>)
    requires
        forall|i: int| 0 <= i < s.len() ==> s[i] != '"' && s[i] != '\\',
    ensures
        compose_string_spec(seq!['"'] + s + seq!['"'] + tail) == Some(s),
{
    let whole = seq!['"'] + s + seq!['"'] + tail;
    assert(whole.skip(1) =~= s + seq!['"'] + tail);
    lemma_plain_body(s, tail, Seq::empty());
    assert(Seq::<char>::empty() + s =~= s);
}

/// The escapes of a quoted compose string: `\n`, `\r`, `\t`, `\\` and `\"`
/// stand for a newline, a carriage return, a tab, a backslash and a quote;
/// an unescaped quote ends the string; a string without its closing quote
/// is no string.
pub proof fn lemma_compose_string_escapes(s: Seq<char>, out: Seq<char>)
    ensures
        quoted_body(seq!['\\', 'n'] + s, out) == quoted_body(s, out.push('\n')),
        quoted_body(seq!['\\', 'r'] + s, out) == quoted_body(s, out.push('\r')),
        quoted_body(seq!['\\', 't'] + s, out) == quoted_body(s, out.push('\t')),
        quoted_body(seq!['\\', '\\'] + s, out) == quoted_body(s, out.push('\\')),
        quoted_body(seq!['\\', '"'] + s, out) == quoted_body(s, out.push('"')),
        quoted_body(seq!['"'] + s, out) == Some(out),
        quoted_body(Seq::empty(), out) is None,
        quoted_body(seq!['\\'], out) is None,
{
    let esc = |c: char| seq!['\\', c] + s;
    assert(esc('n').skip(2) =~= s);
    assert(esc('r').skip(2) =~= s);
    assert(esc('t').skip(2) =~= s);
    assert(esc('\\').skip(2) =~= s);
    assert(esc('"').skip(2) =~= s);
    assert((seq!['"'] + s)[0] == '"');
    assert(esc('n')[0] == '\\' && esc('n')[1] == 'n');
    assert(esc('r')[0] == '\\' && esc('r')[1] == 'r');
    assert(esc('t')[0] == '\\' && esc('t')[1] == 't');
    assert(esc('\\')[0] == '\\' && esc('\\')[1] == '\\');
    assert(esc('"')[0] == '\\' && esc('"')[1] == '"');
}

/// A backslash and three octal digits stand for the character of that
/// value, up to `\377`; above it the string is no string.
pub proof fn lemma_compose_string_octal(a: char, b: char, c: char, s: Seq<char>, out: Seq<char>)
    requires
        '0' <= a <= '7',
        '0' <= b <= '7',
        '0' <= c <= '7',
    ensures
        ({
            let v = ((a as u32) - 48) * 64 + ((b as u32) - 48) * 8 + ((c as u32) - 48);
            &&& v <= 255 ==> quoted_body(seq!['\\', a, b, c] + s, out) == quoted_body(s, out.push(v as char))
            &&& v > 255 ==> quoted_body(seq!['\\', a, b, c] + s, out) is None
        }),
{
    let w = seq!['\\', a, b, c] + s;
    assert(w[0] == '\\' && w[1] == a && w[2] == b && w[3] == c);
    assert(w.skip(2)[0] == b && w.skip(2)[1] == c);
    let digits = w.subrange(1, 4);
    assert(digits.drop_last() =~= seq![a, b]);
    assert(seq![a, b].drop_last() =~= seq![a]);
    assert(seq![a].drop_last() =~= Seq::<char>::empty());
    assert(digits.last() == c);
    assert(seq![a, b].last() == b);
    assert(seq![a].last() == a);
    assert(octal_value(Seq::<char>::empty()) == 0);
    assert(w.skip(4) =~= s);
    assert(is_octal_digit(a) && is_octal_digit(b) && is_octal_digit(c));
    assert(octal_run(w.skip(2)) == 2);
    assert(w.subrange(1, 4int) =~= digits);
    assert(octal_value(seq![a]) == (a as u32) as int - 48);
    assert(octal_value(seq![a, b]) == ((a as u32) as int - 48) * 8 + ((b as u32) as int - 48));
    assert(octal_value(digits) == (((a as u32) as int - 48) * 8 + ((b as u32) as int - 48)) * 8 + (
    (c as u32) as int - 48));
    assert(w.skip(4int) =~= s);
}

fn is_octal(c: char) -> (r: bool)
    ensures
        r == is_octal_digit(c),
{
    0x30 <= (c as u32) && (c as u32) <= 0x37
}

/// The text of the quoted string `input` (which starts with its opening
/// quote), with its escapes replaced; `None` if it is not a complete quoted
/// string or has an octal escape above `\377`.
pub fn parse_compose_string(input: &str) -> (r: Option<String>)
    ensures
        r is Some == compose_string_spec(input@) is Some,
        r matches Some(t) ==> compose_string_spec(input@) == Some(t@),
{
    let v = chars_of(input);
    compose_string_of(&v)
}

fn compose_string_of(v: &[char]) -> (r: Option<String>)
    ensures
        r is Some == compose_string_spec(v@) is Some,
        r matches Some(t) ==> compose_string_spec(v@) == Some(t@),
{
    if v.len() == 0 || v[0] != '"' {
        return None;
    }
    let n = v.len();
    let mut i: usize = 1;
    let mut out = String::new();
    while i < n
        invariant
            n == v@.len(),
            1 <= i <= n,
            compose_string_spec(v@) == quoted_body(v@.skip(i as int), out@),
        decreases n - i,
    {
        let ghost rest = v@.skip(i as int);
        let c = v[i];
        assert(rest[0] == c);
        if c == '"' {
            return Some(out);
        } else if c == '\\' {
            if i + 1 >= n {
                return None;
            }
            let e = v[i + 1];
            assert(rest[1] == e);
            if is_octal(e) {
                let mut value: u32 = (e as u32) - 48;
                let mut j = i + 2;
                let ghost n_run = octal_run(rest.skip(2));
                assert(octal_value(rest.subrange(1, 2)) == value) by {
                    assert(rest.subrange(1, 2).drop_last() =~= Seq::<char>::empty());
                    assert(octal_value(Seq::<char>::empty()) == 0);
                    assert(rest.subrange(1, 2).last() == e);
                }
                if j < n && is_octal(v[j]) {
                    assert(rest.skip(2)[0] == v@[j as int]);
                    assert(rest.subrange(1, 3).drop_last() =~= rest.subrange(1, 2));
                    assert(rest.subrange(1, 3).last() == v@[j as int]);
                    value = value * 8 + ((v[j] as u32) - 48);
                    assert(octal_value(rest.subrange(1, 3)) == value);
                    j += 1;
                    if j < n && is_octal(v[j]) {
                        assert(rest.skip(2)[1] == v@[j as int]);
                        assert(rest.subrange(1, 4).drop_last() =~= rest.subrange(1, 3));
                        assert(rest.subrange(1, 4).last() == v@[j as int]);
                        value = value * 8 + ((v[j] as u32) - 48);
                        assert(octal_value(rest.subrange(1, 4)) == value);
                        j += 1;
                    }
                }
                assert(j == i + 2 + n_run);
                assert(value == octal_value(rest.subrange(1, 2 + n_run)));
                if value > 255 {
                    return None;
                }
                let byte = value as u8;
                push_char(&mut out, byte as char);
                assert(rest.skip(2 + n_run) =~= v@.skip(j as int));
                i = j;
            } else {
                let ch = if e == 'n' {
                    '\n'
                } else if e == 'r' {
                    '\r'
                } else if e == 't' {
                    '\t'
                } else {
                    e
                };
                push_char(&mut out, ch);
                assert(rest.skip(2) =~= v@.skip(i + 2));
                i = i + 2;
            }
        } else {
            push_char(&mut out, c);
            assert(rest.skip(1) =~= v@.skip(i + 1));
            i = i + 1;
        }
    }
    assert(v@.skip(i as int).len() == 0);
    None
}


/// A `left: right` mapping line, both sides trimmed and non-empty.
pub open spec fn mapping_spec(s: Seq<char>) -> Option<(Seq<char>, Seq<char>)> {
    match find_spec(s, ':') {
        Some(i) => {
            let left = trimmed(s.take(i));
            let right = trimmed(s.skip(i + 1));
            if left.len() == 0 || right.len() == 0 {
                None
            } else {
                Some((left, right))
            }
        },
        None => None,
    }
}

/// The bounds of the two trimmed sides of the mapping line `v[lo..hi]`.
pub fn mapping_bounds(v: &[char], lo: usize, hi: usize) -> (r: Option<(usize, usize, usize, usize)>)
    requires
        lo <= hi <= v@.len(),
    ensures
        r is Some == mapping_spec(v@.subrange(lo as int, hi as int)) is Some,
        r matches Some(b) ==> lo <= b.0 <= b.1 <= hi && lo <= b.2 <= b.3 <= hi && mapping_spec(
            v@.subrange(lo as int, hi as int),
        ) == Some((v@.subrange(b.0 as int, b.1 as int), v@.subrange(b.2 as int, b.3 as int))),
{
    let ghost s = v@.subrange(lo as int, hi as int);
    let colon = match find_char(v, lo, hi, ':') {
        Some(i) => i,
        None => return None,
    };
    assert(s.take(colon - lo) =~= v@.subrange(lo as int, colon as int));
    assert(s.skip(colon - lo + 1) =~= v@.subrange(colon + 1, hi as int));
    let (a, b) = trim_range(v, lo, colon);
    let (c, d) = trim_range(v, colon + 1, hi);
    if a == b || c == d {
        return None;
    }
    Some((a, b, c, d))
}

/// Splits a `left: right` line at its first colon; both sides are trimmed
/// and must not be empty.
pub fn split_mapping(line: &str) -> (r: Option<(&str, &str)>)
    ensures
        r is Some == mapping_spec(line@) is Some,
        r matches Some(p) ==> mapping_spec(line@) == Some((p.0@, p.1@)),
{
    let v = chars_of(line);
    let n = v.len();
    assert(v@.subrange(0, n as int) =~= v@);
    match mapping_bounds(&v, 0, n) {
        Some((a, b, c, d)) => Some((line.substring_char(a, b), line.substring_char(c, d))),
        None => None,
    }
}

/// The path of an `include "path"` line.
pub open spec fn include_spec(s: Seq<char>) -> Option<Seq<char>> {
    let keyword = "include"@;
    if keyword.is_prefix_of(s) {
        let t = trimmed(s.skip(keyword.len() as int));
        if t.len() > 0 && t[0] == '"' {
            match find_spec(t.skip(1), '"') {
                Some(e) => Some(t.skip(1).take(e)),
                None => None,
            }
        } else {
            None
        }
    } else {
        None
    }
}

fn include_path_of(v: &[char]) -> (r: Option<String>)
    ensures
        r is Some == include_spec(v@) is Some,
        r matches Some(p) ==> include_spec(v@) == Some(p@),
{
    let keyword = chars_of("include");
    let n = v.len();
    if !has_prefix_at(v, 0, n, &keyword) {
        assert(v@.subrange(0, n as int) =~= v@);
        return None;
    }
    assert(v@.subrange(0, n as int) =~= v@);
    let (a, b) = trim_range(v, keyword.len(), n);
    assert(v@.subrange(keyword@.len() as int, n as int) =~= v@.skip(keyword@.len() as int));
    let ghost t = v@.subrange(a as int, b as int);
    if a == b || v[a] != '"' {
        return None;
    }
    assert(t[0] == v@[a as int]);
    assert(t.skip(1) =~= v@.subrange(a + 1, b as int));
    match find_char(v, a + 1, b, '"') {
        Some(e) => {
            assert(t.skip(1).take(e - (a + 1)) =~= v@.subrange(a + 1, e as int));
            let part = vstd::slice::slice_subrange(v, a + 1, e);
            Some(string_from_chars(part))
        },
        None => None,
    }
}

/// The path named by an `include "path"` line, if it is one.
pub fn parse_include(line: &str) -> (r: Option<String>)
    ensures
        r is Some == include_spec(line@) is Some,
        r matches Some(p) ==> include_spec(line@) == Some(p@),
{
    let v = chars_of(line);
    include_path_of(&v)
}

/// The names between angle brackets in `s`, after those already read
/// (`acc`); `None` when a `<` is not closed.
pub open spec fn names_from(s: Seq<char>, acc: Seq<Seq<char>>) -> Option<Seq<Seq<char>>>
    decreases s.len(),
{
    match find_spec(s, '<') {
        None => Some(acc),
        Some(st) => {
            proof {
                lemma_find_spec(s, '<');
            }
            let after = s.skip(st + 1);
            match find_spec(after, '>') {
                None => None,
                Some(e) => {
                    proof {
                        lemma_find_spec(after, '>');
                    }
                    names_from(after.skip(e + 1), acc.push(after.take(e)))
                },
            }
        },
    }
}

/// The keysym names of a compose sequence such as `<Multi_key> <a> <e>`;
/// `None` when a `<` is not closed or there is no name.
pub open spec fn sequence_names_spec(s: Seq<char>) -> Option<Seq<Seq<char>>> {
    match names_from(trimmed(s), Seq::empty()) {
        Some(names) => if names.len() == 0 {
            None
        } else {
            Some(names)
        },
        None => None,
    }
}

/// The views of a list of strings.
pub open spec fn strings_view(v: Seq<String>) -> Seq<Seq<char>> {
    v.map_values(|s: String| s@)
}

fn sequence_names_of(v: &[char]) -> (r: Option<Vec<String>>)
    ensures
        r is Some == sequence_names_spec(v@) is Some,
        r matches Some(names) ==> sequence_names_spec(v@) == Some(strings_view(names@)),
{
    let n = v.len();
    let (lo, hi) = trim_range(v, 0, n);
    assert(v@.subrange(0, n as int) =~= v@);
    let ghost t = v@.subrange(lo as int, hi as int);
    let mut names: Vec<String> = Vec::new();
    let mut pos = lo;
    assert(strings_view(names@) =~= Seq::<Seq<char>>::empty());
    assert(trimmed(v@) == t);
    while pos < hi
        invariant
            lo <= pos <= hi <= v@.len(),
            t == v@.subrange(lo as int, hi as int),
            trimmed(v@) == t,
            names_from(t, Seq::empty()) == names_from(
                v@.subrange(pos as int, hi as int),
                strings_view(names@),
            ),
        ensures
            names_from(t, Seq::empty()) == Some(strings_view(names@)),
        decreases hi - pos,
    {
        let ghost rest = v@.subrange(pos as int, hi as int);
        proof {
            lemma_find_spec(rest, '<');
        }
        let start = match find_char(v, pos, hi, '<') {
            Some(s) => s,
            None => {
                assert(names_from(rest, strings_view(names@)) == Some(strings_view(names@)));
                break;
            },
        };
        let ghost after = rest.skip(start - pos + 1);
        assert(after =~= v@.subrange(start + 1, hi as int));
        proof {
            lemma_find_spec(after, '>');
        }
        let end = match find_char(v, start + 1, hi, '>') {
            Some(e) => e,
            None => {
                assert(names_from(rest, strings_view(names@)) is None);
                return None;
            },
        };
        assert(after.take(end - start - 1) =~= v@.subrange(start + 1, end as int));
        assert(after.skip(end - start) =~= v@.subrange(end + 1, hi as int));
        let token = string_from_chars(vstd::slice::slice_subrange(v, start + 1, end));
        let ghost before = names@;
        names.push(token);
        assert(strings_view(names@) =~= strings_view(before).push(after.take(end - start - 1)));
        pos = end + 1;
    }
    if names.len() == 0 {
        None
    } else {
        Some(names)
    }
}

/// The keysym names of a compose sequence such as `<Multi_key> <a> <e>`.
pub fn parse_sequence_names(input: &str) -> (r: Option<Vec<String>>)
    ensures
        r is Some == sequence_names_spec(input@) is Some,
        r matches Some(names) ==> sequence_names_spec(input@) == Some(strings_view(names@)),
{
    let v = chars_of(input);
    sequence_names_of(&v)
}


/// `s` up to its first `c` (all of `s` if there is none).
pub open spec fn before_first(s: Seq<char>, c: char) -> Seq<char> {
    match find_spec(s, c) {
        Some(i) => s.take(i),
        None => s,
    }
}

/// A compose entry line `<k1> <k2> ... : "text"  # comment`: the keysym
/// names and the text.
pub open spec fn compose_entry_spec(line: Seq<char>) -> Option<(Seq<Seq<char>>, Seq<char>)> {
    let commentless = trimmed(before_first(line, '#'));
    match find_spec(commentless, ':') {
        Some(i) => match (
            sequence_names_spec(trimmed(commentless.take(i))),
            compose_string_spec(trimmed(commentless.skip(i + 1))),
        ) {
            (Some(names), Some(text)) => Some((names, text)),
            _ => None,
        },
        None => None,
    }
}

/// What a line of a compose file says.
#[derive(Debug)]
pub enum ComposeLine {
    /// Nothing: blank, a comment, or not understood.
    Skip,
    /// Read the entries of another file here.
    Include(String),
    /// The keysyms with these names compose to this text.
    Entry(Vec<String>, String),
}

/// `ComposeLine` as plain values.
pub ghost enum ComposeLineView {
    Skip,
    Include(Seq<char>),
    Entry(Seq<Seq<char>>, Seq<char>),
}

impl View for ComposeLine {
    type V = ComposeLineView;

    open spec fn view(&self) -> ComposeLineView {
        match self {
            ComposeLine::Skip => ComposeLineView::Skip,
            ComposeLine::Include(p) => ComposeLineView::Include(p@),
            ComposeLine::Entry(names, text) => ComposeLineView::Entry(strings_view(names@), text@),
        }
    }
}

/// What a line of a compose file says: blank lines and lines starting with
/// `XCOMM` or `#` say nothing; then an include, else an entry.
pub open spec fn compose_line_spec(raw: Seq<char>) -> ComposeLineView {
    let line = trimmed(raw);
    if line.len() == 0 || "XCOMM"@.is_prefix_of(line) || line[0] == '#' {
        ComposeLineView::Skip
    } else {
        match include_spec(line) {
            Some(p) => ComposeLineView::Include(p),
            None => match compose_entry_spec(line) {
                Some((names, text)) => ComposeLineView::Entry(names, text),
                None => ComposeLineView::Skip,
            },
        }
    }
}

fn compose_entry_of(v: &[char]) -> (r: Option<(Vec<String>, String)>)
    ensures
        r is Some == compose_entry_spec(v@) is Some,
        r matches Some(e) ==> compose_entry_spec(v@) == Some((strings_view(e.0@), e.1@)),
{
    let n = v.len();
    assert(v@.subrange(0, n as int) =~= v@);
    let cut = match find_char(v, 0, n, '#') {
        Some(i) => i,
        None => n,
    };
    assert(v@.subrange(0, cut as int) == before_first(v@, '#'));
    let (lo, hi) = trim_range(v, 0, cut);
    let ghost commentless = v@.subrange(lo as int, hi as int);
    let colon = match find_char(v, lo, hi, ':') {
        Some(i) => i,
        None => return None,
    };
    let ghost ci = colon - lo;
    assert(commentless.take(ci) =~= v@.subrange(lo as int, colon as int));
    assert(commentless.skip(ci + 1) =~= v@.subrange(colon + 1, hi as int));
    let (a, b) = trim_range(v, lo, colon);
    let (c, d) = trim_range(v, colon + 1, hi);
    let names = match sequence_names_of(vstd::slice::slice_subrange(v, a, b)) {
        Some(names) => names,
        None => return None,
    };
    let text = match compose_string_of(vstd::slice::slice_subrange(v, c, d)) {
        Some(text) => text,
        None => return None,
    };
    Some((names, text))
}

fn classify_compose_line(v: &[char]) -> (r: ComposeLine)
    ensures
        r@ == compose_line_spec(v@),
{
    let n = v.len();
    let (lo, hi) = trim_range(v, 0, n);
    assert(v@.subrange(0, n as int) =~= v@);
    let line = vstd::slice::slice_subrange(v, lo, hi);
    let xcomm = chars_of("XCOMM");
    if line.len() == 0 {
        return ComposeLine::Skip;
    }
    if has_prefix_at(line, 0, line.len(), &xcomm) || line[0] == '#' {
        assert(line@.subrange(0, line@.len() as int) =~= line@);
        return ComposeLine::Skip;
    }
    assert(line@.subrange(0, line@.len() as int) =~= line@);
    if let Some(p) = include_path_of(line) {
        return ComposeLine::Include(p);
    }
    match compose_entry_of(line) {
        Some((names, text)) => ComposeLine::Entry(names, text),
        None => ComposeLine::Skip,
    }
}

/// What each line of a compose file says, in order.
pub fn parse_compose_lines(contents: &str) -> (r: Vec<ComposeLine>)
    ensures
        r@.len() == lines_of(contents@).len(),
        forall|k: int|
            0 <= k < r@.len() ==> (#[trigger] r@[k])@ == compose_line_spec(lines_of(contents@)[k]),
{
    let v = chars_of(contents);
    let ranges = line_ranges(&v);
    let mut out: Vec<ComposeLine> = Vec::new();
    let mut k: usize = 0;
    while k < ranges.len()
        invariant
            v@ == contents@,
            ranges@.len() == lines_of(v@).len(),
            forall|j: int| 0 <= j < ranges@.len() ==> (#[trigger] ranges@[j]).0 <= ranges@[j].1 <= v@.len(),
            forall|j: int|
                0 <= j < ranges@.len() ==> v@.subrange(ranges@[j].0 as int, ranges@[j].1 as int)
                    == #[trigger] lines_of(v@)[j],
            k <= ranges@.len(),
            out@.len() == k,
            forall|j: int| 0 <= j < k ==> (#[trigger] out@[j])@ == compose_line_spec(lines_of(v@)[j]),
        decreases ranges@.len() - k,
    {
        let (a, b) = ranges[k];
        assert(ranges@[k as int].0 <= ranges@[k as int].1);
        let line = vstd::slice::slice_subrange(&v, a, b);
        assert(line@ == lines_of(v@)[k as int]);
        let item = classify_compose_line(line);
        out.push(item);
        k += 1;
    }
    out
}

} // verus!
