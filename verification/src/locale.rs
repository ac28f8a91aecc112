//! Finding the compose file of a locale: the `locale.alias` and
//! `compose.dir` index files, the fallbacks tried for a locale name, the
//! locale taken from the environment, and the paths named by `include`.

use vstd::prelude::*;
use crate::compose_map::LocaleMap;
use crate::compose_parse::{mapping_bounds, mapping_spec};
use crate::text::{
    chars_of, find_char, find_spec, lemma_find_spec, lemma_find_spec_at, has_prefix_at, line_ranges, lines_of, string_from_chars,
    trim_range, trimmed,
};

verus! {

/// The mapping a line of an index file holds: blank lines and lines
/// starting with `XCOMM` hold none.
pub open spec fn mapping_line_spec(raw: Seq<char>) -> Option<(Seq<char>, Seq<char>)> {
    let line = trimmed(raw);
    if line.len() == 0 || "XCOMM"@.is_prefix_of(line) {
        None
    } else {
        mapping_spec(line)
    }
}

/// The aliases of `locale.alias` lines `alias: target`, a later line for an
/// alias replacing an earlier one.
pub open spec fn aliases_spec(lines: Seq<Seq<char>>) -> Map<Seq<char>, Seq<char>>
    decreases lines.len(),
{
    if lines.len() == 0 {
        Map::empty()
    } else {
        let before = aliases_spec(lines.drop_last());
        match mapping_line_spec(lines.last()) {
            Some((alias, target)) => before.insert(alias, target),
            None => before,
        }
    }
}

/// The compose files of `compose.dir` lines `file: locale`, keyed by locale,
/// a later line for a locale replacing an earlier one.
pub open spec fn index_spec(lines: Seq<Seq<char>>) -> Map<Seq<char>, Seq<char>>
    decreases lines.len(),
{
    if lines.len() == 0 {
        Map::empty()
    } else {
        let before = index_spec(lines.drop_last());
        match mapping_line_spec(lines.last()) {
            Some((file, locale)) => before.insert(locale, file),
            None => before,
        }
    }
}

fn parse_mappings(contents: &str, reversed: bool) -> (r: LocaleMap)
    ensures
        !reversed ==> r@ == aliases_spec(lines_of(contents@)),
        reversed ==> r@ == index_spec(lines_of(contents@)),
{
    let v = chars_of(contents);
    let ranges = line_ranges(&v);
    let xcomm = chars_of("XCOMM");
    let ghost lines = lines_of(v@);
    let mut map = LocaleMap::new();
    let mut k: usize = 0;
    assert(lines.take(0) =~= Seq::<Seq<char>>::empty());
    while k < ranges.len()
        invariant
            v@ == contents@,
            lines == lines_of(v@),
            xcomm@ == "XCOMM"@,
            ranges@.len() == lines.len(),
            forall|j: int| 0 <= j < ranges@.len() ==> (#[trigger] ranges@[j]).0 <= ranges@[j].1 <= v@.len(),
            forall|j: int|
                0 <= j < ranges@.len() ==> v@.subrange(ranges@[j].0 as int, ranges@[j].1 as int)
                    == #[trigger] lines[j],
            k <= ranges@.len(),
            !reversed ==> map@ == aliases_spec(lines.take(k as int)),
            reversed ==> map@ == index_spec(lines.take(k as int)),
        decreases ranges@.len() - k,
    {
        let (a, b) = ranges[k];
        assert(ranges@[k as int].0 <= ranges@[k as int].1);
        let ghost line = lines[k as int];
        assert(lines.take(k + 1).drop_last() =~= lines.take(k as int));
        assert(lines.take(k + 1).last() == line);
        let (lo, hi) = trim_range(&v, a, b);
        if lo < hi && !has_prefix_at(&v, lo, hi, &xcomm) {
            if let Some((p0, p1, p2, p3)) = mapping_bounds(&v, lo, hi) {
                let left = vstd::slice::slice_to_vec(vstd::slice::slice_subrange(&v, p0, p1));
                let right = vstd::slice::slice_subrange(&v, p2, p3);
                if reversed {
                    map.insert(vstd::slice::slice_to_vec(right), string_from_chars(
                        vstd::slice::slice_subrange(&v, p0, p1),
                    ));
                } else {
                    map.insert(left, string_from_chars(right));
                }
            }
        }
        k += 1;
    }
    assert(lines.take(ranges@.len() as int) =~= lines);
    map
}

/// The aliases that the contents of a `locale.alias` file define.
pub fn parse_locale_aliases(contents: &str) -> (r: LocaleMap)
    ensures
        r@ == aliases_spec(lines_of(contents@)),
{
    parse_mappings(contents, false)
}

/// The compose file of each locale that the contents of a `compose.dir`
/// file name.
pub fn parse_locale_index(contents: &str) -> (r: LocaleMap)
    ensures
        r@ == index_spec(lines_of(contents@)),
{
    parse_mappings(contents, true)
}


/// The names tried for a requested locale, in order: the locale itself, its
/// alias, the locale without its `@modifier`, without its `.codeset`, its
/// language alone, and `C`.
pub open spec fn locale_candidates(req: Seq<char>, aliases: Map<Seq<char>, Seq<char>>) -> Seq<
    Seq<char>,
> {
    seq![req] + (if aliases.contains_key(req) {
        seq![aliases[req]]
    } else {
        Seq::empty()
    }) + (match find_spec(req, '@') {
        Some(i) => seq![req.take(i)],
        None => Seq::empty(),
    }) + (match find_spec(req, '.') {
        Some(i) => seq![req.take(i)],
        None => Seq::empty(),
    }) + (match find_spec(req, '_') {
        Some(i) => seq![req.take(i)],
        None => Seq::empty(),
    }) + seq!["C"@]
}

/// The compose file of one candidate: its own entry, else that of its alias.
pub open spec fn candidate_file(
    c: Seq<char>,
    aliases: Map<Seq<char>, Seq<char>>,
    files: Map<Seq<char>, Seq<char>>,
) -> Option<Seq<char>> {
    if files.contains_key(c) {
        Some(files[c])
    } else if aliases.contains_key(c) && files.contains_key(aliases[c]) {
        Some(files[aliases[c]])
    } else {
        None
    }
}

/// The compose file of the first candidate that has one.
pub open spec fn first_candidate_file(
    cands: Seq<Seq<char>>,
    aliases: Map<Seq<char>, Seq<char>>,
    files: Map<Seq<char>, Seq<char>>,
) -> Option<Seq<char>>
    decreases cands.len(),
{
    if cands.len() == 0 {
        None
    } else {
        match candidate_file(cands[0], aliases, files) {
            Some(f) => Some(f),
            None => first_candidate_file(cands.drop_first(), aliases, files),
        }
    }
}

/// The compose file for a requested locale.
pub open spec fn resolve_locale_spec(
    req: Seq<char>,
    aliases: Map<Seq<char>, Seq<char>>,
    files: Map<Seq<char>, Seq<char>>,
) -> Option<Seq<char>> {
    first_candidate_file(locale_candidates(req, aliases), aliases, files)
}

/// The views of a list of character vectors.
pub open spec fn char_vecs_view(v: Seq<Vec<char>>) -> Seq<Seq<char>> {
    v.map_values(|c: Vec<char>| c@)
}

fn push_before(cands: &mut Vec<Vec<char>>, req: &Vec<char>, sep: char)
    ensures
        char_vecs_view(final(cands)@) == char_vecs_view(old(cands)@) + (match find_spec(req@, sep) {
            Some(i) => seq![req@.take(i)],
            None => Seq::<Seq<char>>::empty(),
        }),
{
    let n = req.len();
    assert(req@.subrange(0, n as int) =~= req@);
    let ghost before = cands@;
    match find_char(req, 0, n, sep) {
        Some(i) => {
            let part = vstd::slice::slice_to_vec(vstd::slice::slice_subrange(req, 0, i));
            assert(part@ =~= req@.take(i as int));
            cands.push(part);
            assert(char_vecs_view(cands@) =~= char_vecs_view(before).push(req@.take(i as int)));
        },
        None => {
            assert(char_vecs_view(cands@) =~= char_vecs_view(before) + Seq::<Seq<char>>::empty());
        },
    }
}

/// The compose file of `requested`: the first of its candidate names (see
/// `locale_candidates`) that `mappings` maps, directly or through its alias.
pub fn resolve_locale(requested: &str, aliases: &LocaleMap, mappings: &LocaleMap) -> (r: Option<
    String,
>)
    ensures
        r is Some == resolve_locale_spec(requested@, aliases@, mappings@) is Some,
        r matches Some(f) ==> resolve_locale_spec(requested@, aliases@, mappings@) == Some(f@),
{
    let req = chars_of(requested);
    let mut cands: Vec<Vec<char>> = Vec::new();
    cands.push(req.clone());
    assert(char_vecs_view(cands@) =~= seq![req@]);
    let ghost c1 = char_vecs_view(cands@);
    match aliases.get(&req) {
        Some(alias) => {
            cands.push(chars_of(alias.as_str()));
            assert(char_vecs_view(cands@) =~= c1 + seq![aliases@[req@]]);
        },
        None => {
            assert(char_vecs_view(cands@) =~= c1 + Seq::<Seq<char>>::empty());
        },
    }
    push_before(&mut cands, &req, '@');
    push_before(&mut cands, &req, '.');
    push_before(&mut cands, &req, '_');
    let ghost c5 = char_vecs_view(cands@);
    cands.push(chars_of("C"));
    assert(char_vecs_view(cands@) =~= c5 + seq!["C"@]);
    let ghost all = char_vecs_view(cands@);
    assert(all =~= locale_candidates(requested@, aliases@));
    let mut i: usize = 0;
    assert(all.skip(0) =~= all);
    while i < cands.len()
        invariant
            all == char_vecs_view(cands@),
            i <= cands@.len(),
            resolve_locale_spec(requested@, aliases@, mappings@) == first_candidate_file(
                all.skip(i as int),
                aliases@,
                mappings@,
            ),
        decreases cands@.len() - i,
    {
        let ghost rest = all.skip(i as int);
        assert(rest[0] == cands@[i as int]@);
        assert(rest.drop_first() =~= all.skip(i + 1));
        if let Some(file) = mappings.get(&cands[i]) {
            return Some(file);
        }
        if let Some(alias) = aliases.get(&cands[i]) {
            let alias_chars = chars_of(alias.as_str());
            if let Some(file) = mappings.get(&alias_chars) {
                return Some(file);
            }
        }
        i += 1;
    }
    None
}

proof fn lemma_first_candidate_last(
    cands: Seq<Seq<char>>,
    aliases: Map<Seq<char>, Seq<char>>,
    files: Map<Seq<char>, Seq<char>>,
)
    requires
        cands.len() > 0,
        files.contains_key(cands.last()),
    ensures
        first_candidate_file(cands, aliases, files) is Some,
    decreases cands.len(),
{
    if cands.len() > 1 && candidate_file(cands[0], aliases, files) is None {
        assert(cands.drop_first().last() == cands.last());
        lemma_first_candidate_last(cands.drop_first(), aliases, files);
    }
}

proof fn lemma_first_single(x: Seq<char>, aliases: Map<Seq<char>, Seq<char>>, files: Map<Seq<char>, Seq<char>>)
    ensures
        first_candidate_file(seq![x], aliases, files) == candidate_file(x, aliases, files),
{
    let one = seq![x];
    assert(one.drop_first() =~= Seq::<Seq<char>>::empty());
    assert(one[0] == x);
    assert(first_candidate_file(Seq::<Seq<char>>::empty(), aliases, files) is None);
    assert(first_candidate_file(one, aliases, files) == match candidate_file(x, aliases, files) {
        Some(f) => Some(f),
        None => first_candidate_file(one.drop_first(), aliases, files),
    });
}

proof fn lemma_first_concat(
    a: Seq<Seq<char>>,
    b: Seq<Seq<char>>,
    aliases: Map<Seq<char>, Seq<char>>,
    files: Map<Seq<char>, Seq<char>>,
)
    ensures
        first_candidate_file(a + b, aliases, files) == (match first_candidate_file(a, aliases, files) {
            Some(f) => Some(f),
            None => first_candidate_file(b, aliases, files),
        }),
    decreases a.len(),
{
    if a.len() == 0 {
        assert(a + b =~= b);
    } else {
        assert((a + b)[0] == a[0]);
        assert((a + b).drop_first() =~= a.drop_first() + b);
        lemma_first_concat(a.drop_first(), b, aliases, files);
    }
}

/// Neither `name` nor its alias has a compose file.
pub open spec fn no_file_for(
    name: Seq<char>,
    aliases: Map<Seq<char>, Seq<char>>,
    files: Map<Seq<char>, Seq<char>>,
) -> bool {
    &&& !files.contains_key(name)
    &&& aliases.contains_key(name) ==> !files.contains_key(aliases[name])
}

/// Whether the first `c` of `s` is at `i`.
pub open spec fn first_at(s: Seq<char>, c: char, i: int) -> bool {
    &&& 0 <= i < s.len()
    &&& s[i] == c
    &&& forall|j: int| 0 <= j < i ==> s[j] != c
}

/// The candidates a requested locale is tried under, laid out: the locale,
/// its alias (if any), the part before the first `@`, before the first
/// `.`, before the first `_` (each if there is one), and `C`.
proof fn lemma_candidates_parts(req: Seq<char>, aliases: Map<Seq<char>, Seq<char>>, files: Map<Seq<char>, Seq<char>>)
    ensures
        ({
            let part = |c: char| match find_spec(req, c) {
                Some(i) => seq![req.take(i)],
                None => Seq::<Seq<char>>::empty(),
            };
            let alias = if aliases.contains_key(req) {
                seq![aliases[req]]
            } else {
                Seq::<Seq<char>>::empty()
            };
            resolve_locale_spec(req, aliases, files) == (match first_candidate_file(seq![req], aliases, files) {
                Some(f) => Some(f),
                None => match first_candidate_file(alias, aliases, files) {
                    Some(f) => Some(f),
                    None => match first_candidate_file(part('@'), aliases, files) {
                        Some(f) => Some(f),
                        None => match first_candidate_file(part('.'), aliases, files) {
                            Some(f) => Some(f),
                            None => match first_candidate_file(part('_'), aliases, files) {
                                Some(f) => Some(f),
                                None => candidate_file("C"@, aliases, files),
                            },
                        },
                    },
                },
            })
        }),
{
    let part = |c: char| match find_spec(req, c) {
        Some(i) => seq![req.take(i)],
        None => Seq::<Seq<char>>::empty(),
    };
    let alias = if aliases.contains_key(req) {
        seq![aliases[req]]
    } else {
        Seq::<Seq<char>>::empty()
    };
    let p1 = seq![req] + alias;
    let p2 = p1 + part('@');
    let p3 = p2 + part('.');
    let p4 = p3 + part('_');
    assert(locale_candidates(req, aliases) =~= p4 + seq!["C"@]);
    lemma_first_concat(p4, seq!["C"@], aliases, files);
    lemma_first_single("C"@, aliases, files);
    lemma_first_concat(p3, part('_'), aliases, files);
    lemma_first_concat(p2, part('.'), aliases, files);
    lemma_first_concat(p1, part('@'), aliases, files);
    lemma_first_concat(seq![req], alias, aliases, files);
}

proof fn lemma_part_at(req: Seq<char>, c: char, i: int, aliases: Map<Seq<char>, Seq<char>>, files: Map<Seq<char>, Seq<char>>)
    requires
        first_at(req, c, i),
    ensures
        find_spec(req, c) == Some(i),
        first_candidate_file(seq![req.take(i)], aliases, files) == candidate_file(req.take(i), aliases, files),
{
    lemma_find_spec_at(req, c, i);
    lemma_first_single(req.take(i), aliases, files);
}

proof fn lemma_part_none(req: Seq<char>, c: char, aliases: Map<Seq<char>, Seq<char>>, files: Map<Seq<char>, Seq<char>>)
    requires
        forall|j: int| 0 <= j < req.len() ==> req[j] != c,
    ensures
        find_spec(req, c) is None,
{
    lemma_find_spec_at(req, c, req.len() as int);
}

proof fn lemma_alias_part(req: Seq<char>, aliases: Map<Seq<char>, Seq<char>>, files: Map<Seq<char>, Seq<char>>)
    requires
        no_file_for(req, aliases, files),
        aliases.contains_key(req) ==> no_file_for(aliases[req], aliases, files),
    ensures
        first_candidate_file(seq![req], aliases, files) is None,
        first_candidate_file(
            if aliases.contains_key(req) {
                seq![aliases[req]]
            } else {
                Seq::<Seq<char>>::empty()
            },
            aliases,
            files,
        ) is None,
{
    lemma_first_single(req, aliases, files);
    if aliases.contains_key(req) {
        lemma_first_single(aliases[req], aliases, files);
    }
}

/// A locale whose own name and alias have no compose file falls back to its
/// name without the `@modifier`, before any other fallback: for
/// `fr_FR.UTF-8@euro`, `fr_FR.UTF-8` is tried before `fr_FR` and `fr`.
pub proof fn lemma_resolve_without_modifier(
    req: Seq<char>,
    aliases: Map<Seq<char>, Seq<char>>,
    files: Map<Seq<char>, Seq<char>>,
    i: int,
)
    requires
        first_at(req, '@', i),
        no_file_for(req, aliases, files),
        aliases.contains_key(req) ==> no_file_for(aliases[req], aliases, files),
        files.contains_key(req.take(i)),
    ensures
        resolve_locale_spec(req, aliases, files) == Some(files[req.take(i)]),
{
    lemma_candidates_parts(req, aliases, files);
    lemma_alias_part(req, aliases, files);
    lemma_part_at(req, '@', i, aliases, files);
}

/// When the name, its alias and the name without its `@modifier` have no
/// compose file, the name without its `.codeset` is tried next.
pub proof fn lemma_resolve_without_codeset(
    req: Seq<char>,
    aliases: Map<Seq<char>, Seq<char>>,
    files: Map<Seq<char>, Seq<char>>,
    i: int,
)
    requires
        first_at(req, '.', i),
        no_file_for(req, aliases, files),
        aliases.contains_key(req) ==> no_file_for(aliases[req], aliases, files),
        forall|j: int| first_at(req, '@', j) ==> no_file_for(req.take(j), aliases, files),
        files.contains_key(req.take(i)),
    ensures
        resolve_locale_spec(req, aliases, files) == Some(files[req.take(i)]),
{
    lemma_candidates_parts(req, aliases, files);
    lemma_alias_part(req, aliases, files);
    lemma_part_at(req, '.', i, aliases, files);
    lemma_find_spec(req, '@');
    match find_spec(req, '@') {
        Some(j) => {
            assert(first_at(req, '@', j));
            lemma_part_at(req, '@', j, aliases, files);
        },
        None => {},
    }
}

/// When the name, its alias and its parts without `@modifier` and without
/// `.codeset` have no compose file, its language (the part before the
/// first `_`) is tried next.
pub proof fn lemma_resolve_language(
    req: Seq<char>,
    aliases: Map<Seq<char>, Seq<char>>,
    files: Map<Seq<char>, Seq<char>>,
    i: int,
)
    requires
        first_at(req, '_', i),
        no_file_for(req, aliases, files),
        aliases.contains_key(req) ==> no_file_for(aliases[req], aliases, files),
        forall|j: int| first_at(req, '@', j) ==> no_file_for(req.take(j), aliases, files),
        forall|j: int| first_at(req, '.', j) ==> no_file_for(req.take(j), aliases, files),
        files.contains_key(req.take(i)),
    ensures
        resolve_locale_spec(req, aliases, files) == Some(files[req.take(i)]),
{
    lemma_candidates_parts(req, aliases, files);
    lemma_alias_part(req, aliases, files);
    lemma_part_at(req, '_', i, aliases, files);
    lemma_find_spec(req, '@');
    lemma_find_spec(req, '.');
    match find_spec(req, '@') {
        Some(j) => {
            assert(first_at(req, '@', j));
            lemma_part_at(req, '@', j, aliases, files);
        },
        None => {},
    }
    match find_spec(req, '.') {
        Some(j) => {
            assert(first_at(req, '.', j));
            lemma_part_at(req, '.', j, aliases, files);
        },
        None => {},
    }
}

/// Every locale resolves to a compose file when the index maps `C`, the
/// last fallback.
pub proof fn lemma_resolve_falls_back_to_c(
    req: Seq<char>,
    aliases: Map<Seq<char>, Seq<char>>,
    files: Map<Seq<char>, Seq<char>>,
)
    requires
        files.contains_key("C"@),
    ensures
        resolve_locale_spec(req, aliases, files) is Some,
{
    lemma_first_candidate_last(locale_candidates(req, aliases), aliases, files);
}

/// A locale that the index maps directly resolves to its own file.
pub proof fn lemma_resolve_direct(
    req: Seq<char>,
    aliases: Map<Seq<char>, Seq<char>>,
    files: Map<Seq<char>, Seq<char>>,
)
    requires
        files.contains_key(req),
    ensures
        resolve_locale_spec(req, aliases, files) == Some(files[req]),
{
}

/// The locale a compose table is loaded for when none is given: the first
/// of `LC_ALL`, `LC_CTYPE` and `LANG` that is set, trimmed, unless that is
/// empty.
pub open spec fn env_locale_spec(
    lc_all: Option<Seq<char>>,
    lc_ctype: Option<Seq<char>>,
    lang: Option<Seq<char>>,
) -> Option<Seq<char>> {
    let first = match lc_all {
        Some(v) => Some(v),
        None => match lc_ctype {
            Some(v) => Some(v),
            None => lang,
        },
    };
    match first {
        Some(v) => if trimmed(v).len() == 0 {
            None
        } else {
            Some(trimmed(v))
        },
        None => None,
    }
}

/// The locale from the environment: `LC_ALL` when it is set, else
/// `LC_CTYPE` when it is set, else `LANG`; the value is trimmed, and a
/// value that trims to nothing gives no locale (the next variable is not
/// looked at).
pub proof fn lemma_env_locale_precedence(
    lc_all: Option<Seq<char>>,
    lc_ctype: Option<Seq<char>>,
    lang: Option<Seq<char>>,
    v: Seq<char>,
)
    ensures
        lc_all == Some(v) ==> env_locale_spec(lc_all, lc_ctype, lang) == (if trimmed(v).len() == 0 {
            None
        } else {
            Some(trimmed(v))
        }),
        lc_all is None && lc_ctype == Some(v) ==> env_locale_spec(lc_all, lc_ctype, lang) == (if trimmed(
            v,
        ).len() == 0 {
            None
        } else {
            Some(trimmed(v))
        }),
        lc_all is None && lc_ctype is None && lang == Some(v) ==> env_locale_spec(lc_all, lc_ctype, lang)
            == (if trimmed(v).len() == 0 {
            None
        } else {
            Some(trimmed(v))
        }),
        lc_all is None && lc_ctype is None && lang is None ==> env_locale_spec(lc_all, lc_ctype, lang)
            is None,
{
}

/// The view of an optional string slice.
pub open spec fn opt_str_view(s: Option<&str>) -> Option<Seq<char>> {
    match s {
        Some(v) => Some(v@),
        None => None,
    }
}

/// The locale for a compose table, from the values of `LC_ALL`, `LC_CTYPE`
/// and `LANG` (`None` for a variable that is not set).
pub fn compose_locale_from_env(lc_all: Option<&str>, lc_ctype: Option<&str>, lang: Option<&str>) -> (r:
    Option<String>)
    ensures
        r is Some == env_locale_spec(opt_str_view(lc_all), opt_str_view(lc_ctype), opt_str_view(lang)) is Some,
        r matches Some(l) ==> env_locale_spec(
            opt_str_view(lc_all),
            opt_str_view(lc_ctype),
            opt_str_view(lang),
        ) == Some(l@),
{
    let first = match lc_all {
        Some(v) => v,
        None => match lc_ctype {
            Some(v) => v,
            None => match lang {
                Some(v) => v,
                None => return None,
            },
        },
    };
    let v = chars_of(first);
    let n = v.len();
    let (a, b) = trim_range(&v, 0, n);
    assert(v@.subrange(0, n as int) =~= v@);
    if a == b {
        None
    } else {
        Some(string_from_chars(vstd::slice::slice_subrange(&v, a, b)))
    }
}

/// Where `base` joined with `tail` leads (`Path::join`).
pub uninterp spec fn joined_path(base: Seq<char>, tail: Seq<char>) -> Seq<char>;

/// The parent of a path, if it has one (`Path::parent`).
pub uninterp spec fn parent_path(p: Seq<char>) -> Option<Seq<char>>;

/// `std::path::Path::join` on UTF-8 paths. Its result is named by
/// `joined_path`; the one fact stated of it is the documented one that an
/// absolute tail (on Unix, one starting with `/`) replaces the base.
#[verifier::external_body]
fn path_join(base: &str, tail: &str) -> (r: String)
    ensures
        r@ == joined_path(base@, tail@),
        tail@.len() > 0 && tail@[0] == '/' ==> r@ == tail@,
{
    std::path::Path::new(base).join(tail).to_string_lossy().into_owned()
}

/// `std::path::Path::parent` on a UTF-8 path.
#[verifier::external_body]
fn path_parent(p: &str) -> (r: Option<String>)
    ensures
        r is Some == parent_path(p@) is Some,
        r matches Some(q) ==> parent_path(p@) == Some(q@),
{
    match std::path::Path::new(p).parent() {
        Some(q) => Some(q.to_string_lossy().into_owned()),
        None => None,
    }
}

/// The file an `include` line names: a path under `X11_LOCALEDATADIR/` is
/// taken from the locale root, an absolute path stays as it is, and a
/// relative one is taken from the directory of the including file (or from
/// the locale root if that file has no parent).
pub open spec fn include_path_spec(current: Seq<char>, root: Seq<char>, inc: Seq<char>) -> Seq<char> {
    let prefix = "X11_LOCALEDATADIR/"@;
    if prefix.is_prefix_of(inc) {
        joined_path(root, inc.skip(prefix.len() as int))
    } else if inc.len() > 0 && inc[0] == '/' {
        inc
    } else {
        match parent_path(current) {
            Some(dir) => joined_path(dir, inc),
            None => joined_path(root, inc),
        }
    }
}

/// The file that `include_path`, included from `current_file`, names.
pub fn resolve_include_path(current_file: &str, locale_root: &str, include_path: &str) -> (r: String)
    ensures
        r@ == include_path_spec(current_file@, locale_root@, include_path@),
{
    let inc = chars_of(include_path);
    let prefix = chars_of("X11_LOCALEDATADIR/");
    let n = inc.len();
    assert(inc@.subrange(0, n as int) =~= inc@);
    if has_prefix_at(&inc, 0, n, &prefix) {
        let rest = string_from_chars(vstd::slice::slice_subrange(&inc, prefix.len(), n));
        assert(inc@.subrange(prefix@.len() as int, n as int) =~= inc@.skip(prefix@.len() as int));
        return path_join(locale_root, rest.as_str());
    }
    if n > 0 && inc[0] == '/' {
        return string_from_chars(&inc);
    }
    match path_parent(current_file) {
        Some(dir) => path_join(dir.as_str(), include_path),
        None => path_join(locale_root, include_path),
    }
}

} // verus!
