//! The decisions of the vendored X11 build: environment lookups, the target
//! CPU, file-name patterns, the meson cross file, and the quilt series.

use vstd::prelude::*;
use vstd::string::StringExecFns;
use crate::locale::opt_str_view;
use crate::text::{
    chars_eq, chars_of, has_prefix_at, is_white_space, lemma_trimmed_edges, has_suffix_at, line_ranges, lines_of, string_from_chars,
    trim_range, trimmed,
};

verus! {

/// The views of a list of string pairs.
pub open spec fn pairs_view(p: Seq<(String, String)>) -> Seq<(Seq<char>, Seq<char>)> {
    p.map_values(|e: (String, String)| (e.0@, e.1@))
}

/// The value of the first pair whose key is `key`.
pub open spec fn env_value_spec(pairs: Seq<(Seq<char>, Seq<char>)>, key: Seq<char>) -> Option<Seq<char>>
    decreases pairs.len(),
{
    if pairs.len() == 0 {
        None
    } else if pairs[0].0 == key {
        Some(pairs[0].1)
    } else {
        env_value_spec(pairs.drop_first(), key)
    }
}

/// The value of the first `(key, value)` pair with the given key.
pub fn env_value<'a>(pairs: &'a [(String, String)], key: &str) -> (r: Option<&'a str>)
    ensures
        r is Some == env_value_spec(pairs_view(pairs@), key@) is Some,
        r matches Some(v) ==> env_value_spec(pairs_view(pairs@), key@) == Some(v@),
{
    let ghost all = pairs_view(pairs@);
    let wanted = chars_of(key);
    let mut i: usize = 0;
    assert(all.skip(0) =~= all);
    while i < pairs.len()
        invariant
            all == pairs_view(pairs@),
            wanted@ == key@,
            i <= pairs@.len(),
            env_value_spec(all, key@) == env_value_spec(all.skip(i as int), key@),
        decreases pairs@.len() - i,
    {
        let ghost rest = all.skip(i as int);
        assert(rest[0] == (pairs@[i as int].0@, pairs@[i as int].1@));
        assert(rest.drop_first() =~= all.skip(i + 1));
        let k = chars_of(pairs[i].0.as_str());
        if chars_eq(&k, &wanted) {
            return Some(pairs[i].1.as_str());
        }
        i += 1;
    }
    None
}

/// The meson CPU family and CPU of a target triple.
pub open spec fn cpu_info_spec(t: Seq<char>) -> (Seq<char>, Seq<char>) {
    if "x86_64"@.is_prefix_of(t) {
        ("x86_64"@, "x86_64"@)
    } else if "i686"@.is_prefix_of(t) || "i586"@.is_prefix_of(t) {
        ("x86"@, "i686"@)
    } else if "aarch64"@.is_prefix_of(t) {
        ("aarch64"@, "aarch64"@)
    } else if "armv7"@.is_prefix_of(t) || "arm"@.is_prefix_of(t) {
        ("arm"@, "arm"@)
    } else if "riscv64"@.is_prefix_of(t) {
        ("riscv64"@, "riscv64"@)
    } else {
        ("unknown"@, "unknown"@)
    }
}

fn starts_with(v: &[char], prefix: &str) -> (r: bool)
    ensures
        r == prefix@.is_prefix_of(v@),
{
    let p = chars_of(prefix);
    let r = has_prefix_at(v, 0, v.len(), &p);
    assert(v@.subrange(0, v@.len() as int) =~= v@);
    r
}

/// The meson CPU family and CPU for a target triple.
pub fn cpu_info_from_target(target: &str) -> (r: (&'static str, &'static str))
    ensures
        (r.0@, r.1@) == cpu_info_spec(target@),
{
    let t = chars_of(target);
    if starts_with(&t, "x86_64") {
        return ("x86_64", "x86_64");
    }
    if starts_with(&t, "i686") || starts_with(&t, "i586") {
        return ("x86", "i686");
    }
    if starts_with(&t, "aarch64") {
        return ("aarch64", "aarch64");
    }
    if starts_with(&t, "armv7") || starts_with(&t, "arm") {
        return ("arm", "arm");
    }
    if starts_with(&t, "riscv64") {
        return ("riscv64", "riscv64");
    }
    ("unknown", "unknown")
}

/// Whether a file name matches a pattern: a `*` at the start, at the end,
/// or at both ends matches any text there (`*middle*`, `*suffix`,
/// `prefix*`); a pattern without such a star is the exact name.
pub open spec fn glob_spec(p: Seq<char>, v: Seq<char>) -> bool {
    if p.len() >= 2 && p[0] == '*' && p.last() == '*' {
        contains_seq(v, p.subrange(1, p.len() - 1))
    } else if p.len() > 0 && p[0] == '*' {
        p.skip(1).is_suffix_of(v)
    } else if p.len() > 0 && p.last() == '*' {
        p.drop_last().is_prefix_of(v)
    } else {
        p == v
    }
}

/// Whether `value` matches `pattern`: `*middle*`, `*suffix`, `prefix*`, or
/// exactly.
pub fn glob_match(pattern: &str, value: &str) -> (r: bool)
    ensures
        r == glob_spec(pattern@, value@),
{
    let p = chars_of(pattern);
    let v = chars_of(value);
    let n = v.len();
    assert(v@.subrange(0, n as int) =~= v@);
    if p.len() >= 2 && p[0] == '*' && p[p.len() - 1] == '*' {
        let middle = vstd::slice::slice_subrange(&p, 1, p.len() - 1);
        return contains_chars(&v, middle);
    }
    if p.len() > 0 && p[0] == '*' {
        let rest = vstd::slice::slice_subrange(&p, 1, p.len());
        assert(rest@ =~= p@.skip(1));
        return has_suffix_at(&v, 0, n, rest);
    }
    if p.len() > 0 && p[p.len() - 1] == '*' {
        let rest = vstd::slice::slice_subrange(&p, 0, p.len() - 1);
        assert(rest@ =~= p@.drop_last());
        return has_prefix_at(&v, 0, n, rest);
    }
    chars_eq(&p, &v)
}

/// Whether `p` occurs in `s`.
pub open spec fn contains_seq(s: Seq<char>, p: Seq<char>) -> bool {
    exists|i: int| 0 <= i && i + p.len() <= s.len() && #[trigger] s.subrange(i, i + p.len()) == p
}

fn contains_str(v: &[char], p: &str) -> (r: bool)
    ensures
        r == contains_seq(v@, p@),
{
    let pat = chars_of(p);
    contains_chars(v, &pat)
}

fn contains_chars(v: &[char], pat: &[char]) -> (r: bool)
    ensures
        r == contains_seq(v@, pat@),
{
    if pat.len() > v.len() {
        return false;
    }
    let mut i: usize = 0;
    let last = v.len() - pat.len();
    assert(v@.len() == v.len());
    while i <= last
        invariant
            pat@.len() <= v@.len(),
            last == v@.len() - pat@.len(),
            v@.len() <= usize::MAX,
            i <= last + 1,
            forall|j: int| 0 <= j < i && j + pat@.len() <= v@.len() ==> #[trigger] v@.subrange(j, j + pat@.len()) != pat@,
        decreases last + 1 - i,
    {
        if has_prefix_at(v, i, i + pat.len(), pat) {
            assert(v@.subrange(i as int, i + pat@.len()).subrange(0, pat@.len() as int) =~= v@.subrange(i as int, i + pat@.len()));
            return true;
        }
        assert(v@.subrange(i as int, i + pat@.len()).subrange(0, pat@.len() as int) =~= v@.subrange(i as int, i + pat@.len()));
        i += 1;
    }
    false
}

/// The contents of the meson cross file for building with the `CC` and
/// `AR` of `base_env` (`cc` and `ar` when unset), the given `pkg-config`
/// and the target triple.
pub open spec fn meson_cross_file_spec(
    env: Seq<(Seq<char>, Seq<char>)>,
    pkg_config: Seq<char>,
    target: Seq<char>,
) -> Seq<char> {
    let cc = match env_value_spec(env, "CC"@) {
        Some(v) => v,
        None => "cc"@,
    };
    let ar = match env_value_spec(env, "AR"@) {
        Some(v) => v,
        None => "ar"@,
    };
    let (cpu_family, cpu) = cpu_info_spec(target);
    let system = if contains_seq(target, "linux"@) {
        "linux"@
    } else {
        "unknown"@
    };
    "[binaries]\nc = '"@ + cc + "'\nar = '"@ + ar + "'\npkgconfig = '"@ + pkg_config
        + "'\n[host_machine]\nsystem = '"@ + system + "'\ncpu_family = '"@ + cpu_family
        + "'\ncpu = '"@ + cpu + "'\nendian = '"@ + "little"@
        + "'\n[properties]\nneeds_exe_wrapper = true\n"@
}

/// The `[host_machine]` section of the meson cross file names the system
/// `linux` exactly for a target triple that contains `linux`, and
/// `unknown` for any other.
pub proof fn lemma_cross_file_system(env: Seq<(Seq<char>, Seq<char>)>, pkg_config: Seq<char>, target: Seq<char>)
    ensures
        contains_seq(
            meson_cross_file_spec(env, pkg_config, target),
            "\n[host_machine]\nsystem = '"@ + (if contains_seq(target, "linux"@) {
                "linux"@
            } else {
                "unknown"@
            }) + "'\n"@,
        ),
{
    reveal_strlit("\n[host_machine]\nsystem = '");
    reveal_strlit("'\n[host_machine]\nsystem = '");
    reveal_strlit("'\n");
    reveal_strlit("'\ncpu_family = '");
    reveal_strlit("linux");
    reveal_strlit("unknown");
    let cc = match env_value_spec(env, "CC"@) {
        Some(v) => v,
        None => "cc"@,
    };
    let ar = match env_value_spec(env, "AR"@) {
        Some(v) => v,
        None => "ar"@,
    };
    let (cpu_family, cpu) = cpu_info_spec(target);
    let system = if contains_seq(target, "linux"@) {
        "linux"@
    } else {
        "unknown"@
    };
    let a = "[binaries]\nc = '"@ + cc + "'\nar = '"@ + ar + "'\npkgconfig = '"@ + pkg_config;
    let b = "'\n[host_machine]\nsystem = '"@;
    let c = "'\ncpu_family = '"@;
    let rest = c + cpu_family + "'\ncpu = '"@ + cpu + "'\nendian = '"@ + "little"@
        + "'\n[properties]\nneeds_exe_wrapper = true\n"@;
    let whole = meson_cross_file_spec(env, pkg_config, target);
    assert(whole =~= a + b + system + rest);
    let pat = "\n[host_machine]\nsystem = '"@ + system + "'\n"@;
    let i: int = a.len() as int + 1;
    assert(whole.subrange(i, i + pat.len() as int) =~= pat);
}

/// The meson cross file for the target, for the tools of `base_env`.
pub fn meson_cross_file_contents(base_env: &[(String, String)], pkg_config: &str, target: &str) -> (r:
    String)
    ensures
        r@ == meson_cross_file_spec(pairs_view(base_env@), pkg_config@, target@),
{
    let cc = match env_value(base_env, "CC") {
        Some(v) => v,
        None => "cc",
    };
    let ar = match env_value(base_env, "AR") {
        Some(v) => v,
        None => "ar",
    };
    let (cpu_family, cpu) = cpu_info_from_target(target);
    let t = chars_of(target);
    let system = if contains_str(&t, "linux") {
        "linux"
    } else {
        "unknown"
    };
    let endian = "little";
    let mut content = String::from_str("[binaries]\nc = '");
    content.append(cc);
    content.append("'\nar = '");
    content.append(ar);
    content.append("'\npkgconfig = '");
    content.append(pkg_config);
    content.append("'\n[host_machine]\nsystem = '");
    content.append(system);
    content.append("'\ncpu_family = '");
    content.append(cpu_family);
    content.append("'\ncpu = '");
    content.append(cpu);
    content.append("'\nendian = '");
    content.append(endian);
    content.append("'\n[properties]\nneeds_exe_wrapper = true\n");
    content
}

/// The patches a quilt `series` file lists: its lines, trimmed, without
/// blank lines and `#` comments.
pub open spec fn series_spec(lines: Seq<Seq<char>>) -> Seq<Seq<char>>
    decreases lines.len(),
{
    if lines.len() == 0 {
        Seq::empty()
    } else {
        let before = series_spec(lines.drop_last());
        let line = trimmed(lines.last());
        if line.len() == 0 || line[0] == '#' {
            before
        } else {
            before.push(line)
        }
    }
}

/// Every patch a quilt series lists is a non-empty name with no white
/// space at either end that does not start with `#`.
pub proof fn lemma_series_names(lines: Seq<Seq<char>>)
    ensures
        forall|i: int|
            0 <= i < series_spec(lines).len() ==> {
                let n = #[trigger] series_spec(lines)[i];
                &&& n.len() > 0
                &&& n[0] != '#'
                &&& !is_white_space(n[0])
                &&& !is_white_space(n.last())
            },
    decreases lines.len(),
{
    if lines.len() > 0 {
        lemma_series_names(lines.drop_last());
        lemma_trimmed_edges(lines.last());
        let before = series_spec(lines.drop_last());
        assert forall|i: int| 0 <= i < series_spec(lines).len() implies {
            let n = #[trigger] series_spec(lines)[i];
            &&& n.len() > 0
            &&& n[0] != '#'
            &&& !is_white_space(n[0])
            &&& !is_white_space(n.last())
        } by {
            if i < before.len() {
                assert(series_spec(lines)[i] == before[i]);
            }
        }
    }
}

/// The views of a list of strings.
pub open spec fn names_view(v: Seq<String>) -> Seq<Seq<char>> {
    v.map_values(|s: String| s@)
}

/// The patch names a quilt `series` file lists, in order.
pub fn quilt_series_patches(contents: &str) -> (r: Vec<String>)
    ensures
        names_view(r@) == series_spec(lines_of(contents@)),
{
    let v = chars_of(contents);
    let ranges = line_ranges(&v);
    let ghost lines = lines_of(v@);
    let mut out: Vec<String> = Vec::new();
    let mut k: usize = 0;
    assert(lines.take(0) =~= Seq::<Seq<char>>::empty());
    assert(names_view(out@) =~= Seq::<Seq<char>>::empty());
    while k < ranges.len()
        invariant
            v@ == contents@,
            lines == lines_of(v@),
            ranges@.len() == lines.len(),
            forall|j: int| 0 <= j < ranges@.len() ==> (#[trigger] ranges@[j]).0 <= ranges@[j].1 <= v@.len(),
            forall|j: int|
                0 <= j < ranges@.len() ==> v@.subrange(ranges@[j].0 as int, ranges@[j].1 as int)
                    == #[trigger] lines[j],
            k <= ranges@.len(),
            names_view(out@) == series_spec(lines.take(k as int)),
        decreases ranges@.len() - k,
    {
        let (a, b) = ranges[k];
        assert(ranges@[k as int].0 <= ranges@[k as int].1);
        assert(lines.take(k + 1).drop_last() =~= lines.take(k as int));
        assert(lines.take(k + 1).last() == lines[k as int]);
        let (lo, hi) = trim_range(&v, a, b);
        if lo < hi && v[lo] != '#' {
            let ghost before = out@;
            out.push(string_from_chars(vstd::slice::slice_subrange(&v, lo, hi)));
            assert(names_view(out@) =~= names_view(before).push(v@.subrange(lo as int, hi as int)));
        }
        k += 1;
    }
    assert(lines.take(ranges@.len() as int) =~= lines);
    out
}

/// The options given to a package's `configure` script: the install
/// prefix, a static build with position-independent code and without
/// maintainer mode, and the host triple when cross-compiling.
pub open spec fn configure_options_spec(prefix: Seq<char>, host: Option<Seq<char>>) -> Seq<Seq<char>> {
    seq![
        "--prefix="@ + prefix,
        "--disable-maintainer-mode"@,
        "--disable-shared"@,
        "--enable-static"@,
        "--with-pic"@,
    ] + match host {
        Some(h) => seq!["--host="@ + h],
        None => Seq::empty(),
    }
}

fn string_of(s: &str) -> (r: String)
    ensures
        r@ == s@,
{
    String::from_str(s)
}

fn joined(a: &str, b: &str) -> (r: String)
    ensures
        r@ == a@ + b@,
{
    let mut r = String::from_str(a);
    r.append(b);
    r
}

/// The options with a host triple are the options without one followed by
/// `--host=` and the triple; the options without one start with the
/// install prefix and always ask for a static build with
/// position-independent code, without shared libraries and without
/// maintainer mode.
pub proof fn lemma_configure_options_host(prefix: Seq<char>, host: Seq<char>)
    ensures
        configure_options_spec(prefix, Some(host)) == configure_options_spec(prefix, None).push(
            "--host="@ + host,
        ),
        configure_options_spec(prefix, None)[0] == "--prefix="@ + prefix,
        configure_options_spec(prefix, None).contains("--with-pic"@),
        configure_options_spec(prefix, None).contains("--enable-static"@),
        configure_options_spec(prefix, None).contains("--disable-shared"@),
        configure_options_spec(prefix, None).contains("--disable-maintainer-mode"@),
        !configure_options_spec(prefix, None).contains("--host="@ + host),
{
    let none = configure_options_spec(prefix, None);
    assert(configure_options_spec(prefix, Some(host)) =~= none.push("--host="@ + host));
    assert(none[4] == "--with-pic"@);
    assert(none[3] == "--enable-static"@);
    assert(none[2] == "--disable-shared"@);
    assert(none[1] == "--disable-maintainer-mode"@);
    reveal_strlit("--host=");
    reveal_strlit("--prefix=");
    reveal_strlit("--with-pic");
    reveal_strlit("--enable-static");
    reveal_strlit("--disable-shared");
    reveal_strlit("--disable-maintainer-mode");
    let hs = "--host="@ + host;
    assert(hs[2] == 'h');
    assert forall|j: int| 0 <= j < none.len() implies none[j] != hs by {
        if j == 0 {
            assert(none[0][2] == 'p');
        } else {
            assert(none[j][2] == 'd' || none[j][2] == 'e' || none[j][2] == 'w');
        }
    }
}

/// The options of the `configure` run for the install prefix `prefix` and,
/// when cross-compiling, the host triple `host`.
pub fn configure_options(prefix: &str, host: Option<&str>) -> (r: Vec<String>)
    ensures
        names_view(r@) == configure_options_spec(prefix@, opt_str_view(host)),
{
    let mut out: Vec<String> = Vec::new();
    out.push(joined("--prefix=", prefix));
    out.push(string_of("--disable-maintainer-mode"));
    out.push(string_of("--disable-shared"));
    out.push(string_of("--enable-static"));
    out.push(string_of("--with-pic"));
    match host {
        Some(h) => {
            out.push(joined("--host=", h));
        },
        None => {},
    }
    assert(names_view(out@) =~= configure_options_spec(prefix@, opt_str_view(host)));
    out
}

/// The options of `meson setup` after its build and source directories:
/// the install prefix, libraries in `lib`, a static build, the cross file,
/// and no documentation or tests.
pub open spec fn meson_setup_options_spec(prefix: Seq<char>, cross_file: Seq<char>) -> Seq<Seq<char>> {
    seq![
        "--prefix="@ + prefix,
        "--libdir=lib"@,
        "--default-library=static"@,
        "--cross-file="@ + cross_file,
        "-Ddocs=false"@,
        "-Dtests=false"@,
    ]
}

/// The options of the `meson setup` run for the install prefix `prefix`
/// and the cross file at `cross_file`.
pub fn meson_setup_options(prefix: &str, cross_file: &str) -> (r: Vec<String>)
    ensures
        names_view(r@) == meson_setup_options_spec(prefix@, cross_file@),
{
    let mut out: Vec<String> = Vec::new();
    out.push(joined("--prefix=", prefix));
    out.push(string_of("--libdir=lib"));
    out.push(string_of("--default-library=static"));
    out.push(joined("--cross-file=", cross_file));
    out.push(string_of("-Ddocs=false"));
    out.push(string_of("-Dtests=false"));
    assert(names_view(out@) =~= meson_setup_options_spec(prefix@, cross_file@));
    out
}

/// `env_value` gives the value of the first pair with the key, whatever
/// later pairs with the same key say.
pub proof fn lemma_env_value_first(pairs: Seq<(Seq<char>, Seq<char>)>, key: Seq<char>, i: int)
    requires
        0 <= i < pairs.len(),
        pairs[i].0 == key,
        forall|j: int| 0 <= j < i ==> pairs[j].0 != key,
    ensures
        env_value_spec(pairs, key) == Some(pairs[i].1),
    decreases i,
{
    if i > 0 {
        assert forall|j: int| 0 <= j < i - 1 implies pairs.drop_first()[j].0 != key by {
            assert(pairs.drop_first()[j] == pairs[j + 1]);
        }
        assert(pairs.drop_first()[i - 1] == pairs[i]);
        lemma_env_value_first(pairs.drop_first(), key, i - 1);
    }
}

/// `env_value` finds nothing when no pair has the key.
pub proof fn lemma_env_value_absent(pairs: Seq<(Seq<char>, Seq<char>)>, key: Seq<char>)
    requires
        forall|j: int| 0 <= j < pairs.len() ==> pairs[j].0 != key,
    ensures
        env_value_spec(pairs, key) is None,
    decreases pairs.len(),
{
    if pairs.len() > 0 {
        assert forall|j: int| 0 <= j < pairs.drop_first().len() implies pairs.drop_first()[j].0 != key by {
            assert(pairs.drop_first()[j] == pairs[j + 1]);
        }
        lemma_env_value_absent(pairs.drop_first(), key);
    }
}

/// The meson CPU family and CPU by the start of the target triple:
/// `x86_64` gives x86_64; `i686` or `i586` gives x86 and i686; `aarch64`
/// gives aarch64; `armv7` or `arm` gives arm; `riscv64` gives riscv64; any
/// other start gives unknown.
pub proof fn lemma_cpu_info_by_prefix(t: Seq<char>)
    ensures
        "x86_64"@.is_prefix_of(t) ==> cpu_info_spec(t) == ("x86_64"@, "x86_64"@),
        "i686"@.is_prefix_of(t) ==> cpu_info_spec(t) == ("x86"@, "i686"@),
        "i586"@.is_prefix_of(t) ==> cpu_info_spec(t) == ("x86"@, "i686"@),
        "aarch64"@.is_prefix_of(t) ==> cpu_info_spec(t) == ("aarch64"@, "aarch64"@),
        "arm"@.is_prefix_of(t) ==> cpu_info_spec(t) == ("arm"@, "arm"@),
        "riscv64"@.is_prefix_of(t) ==> cpu_info_spec(t) == ("riscv64"@, "riscv64"@),
        !"x86_64"@.is_prefix_of(t) && !"i686"@.is_prefix_of(t) && !"i586"@.is_prefix_of(t)
            && !"aarch64"@.is_prefix_of(t) && !"arm"@.is_prefix_of(t) && !"riscv64"@.is_prefix_of(t)
            ==> cpu_info_spec(t) == ("unknown"@, "unknown"@),
{
    reveal_strlit("x86_64");
    reveal_strlit("i686");
    reveal_strlit("i586");
    reveal_strlit("aarch64");
    reveal_strlit("armv7");
    reveal_strlit("arm");
    reveal_strlit("riscv64");
    if "armv7"@.is_prefix_of(t) {
        assert("arm"@ =~= "armv7"@.subrange(0, 3));
        assert("arm"@ =~= t.subrange(0, 3));
    }
    if t.len() >= 2 {
        let first = t[0];
        let second = t[1];
        if "x86_64"@.is_prefix_of(t) {
            assert(t.subrange(0, 6)[0] == first);
        }
        if "i686"@.is_prefix_of(t) {
            assert(t.subrange(0, 4)[0] == first);
        }
        if "i586"@.is_prefix_of(t) {
            assert(t.subrange(0, 4)[0] == first);
        }
        if "aarch64"@.is_prefix_of(t) {
            assert(t.subrange(0, 7)[0] == first);
            assert(t.subrange(0, 7)[1] == second);
        }
        if "arm"@.is_prefix_of(t) {
            assert(t.subrange(0, 3)[0] == first);
            assert(t.subrange(0, 3)[1] == second);
        }
        if "armv7"@.is_prefix_of(t) {
            assert(t.subrange(0, 5)[0] == first);
            assert(t.subrange(0, 5)[1] == second);
        }
        if "riscv64"@.is_prefix_of(t) {
            assert(t.subrange(0, 7)[0] == first);
        }
    }
}

/// The options of `meson setup` start with the install prefix, name the
/// cross file, and ask for libraries in `lib`, a static build, and no
/// documentation or tests.
pub proof fn lemma_meson_setup_options(prefix: Seq<char>, cross_file: Seq<char>)
    ensures
        meson_setup_options_spec(prefix, cross_file)[0] == "--prefix="@ + prefix,
        meson_setup_options_spec(prefix, cross_file).contains("--cross-file="@ + cross_file),
        meson_setup_options_spec(prefix, cross_file).contains("--libdir=lib"@),
        meson_setup_options_spec(prefix, cross_file).contains("--default-library=static"@),
        meson_setup_options_spec(prefix, cross_file).contains("-Ddocs=false"@),
        meson_setup_options_spec(prefix, cross_file).contains("-Dtests=false"@),
{
    let o = meson_setup_options_spec(prefix, cross_file);
    assert(o[3] == "--cross-file="@ + cross_file);
    assert(o[1] == "--libdir=lib"@);
    assert(o[2] == "--default-library=static"@);
    assert(o[4] == "-Ddocs=false"@);
    assert(o[5] == "-Dtests=false"@);
}

/// Whether a directory of a package is skipped when looking for its
/// upstream source tree: `tmp`, `debian` and hidden directories.
pub open spec fn ignored_dir_spec(name: Seq<char>) -> bool {
    name == "tmp"@ || name == "debian"@ || (name.len() > 0 && name[0] == '.')
}

/// Whether the directory `name` is skipped when looking for a package's
/// upstream source tree.
pub fn is_ignored_source_dir(name: &str) -> (r: bool)
    ensures
        r == ignored_dir_spec(name@),
{
    let v = chars_of(name);
    let tmp = chars_of("tmp");
    let debian = chars_of("debian");
    chars_eq(&v, &tmp) || chars_eq(&v, &debian) || (v.len() > 0 && v[0] == '.')
}

/// The directories of a package as plain values: each name, and whether
/// the directory holds a `configure` script or a `meson.build`.
pub open spec fn dir_entries_view(v: Seq<(String, bool)>) -> Seq<(Seq<char>, bool)> {
    v.map_values(|d: (String, bool)| (d.0@, d.1))
}

/// The first directory from `i` on that is not skipped and has a build
/// file.
pub open spec fn first_built_from(e: Seq<(Seq<char>, bool)>, i: int) -> Option<int>
    decreases e.len() - i,
{
    if 0 <= i < e.len() {
        if !ignored_dir_spec(e[i].0) && e[i].1 {
            Some(i)
        } else {
            first_built_from(e, i + 1)
        }
    } else {
        None
    }
}

/// The directories that are not skipped, in order.
pub open spec fn source_candidates(e: Seq<(Seq<char>, bool)>) -> Seq<int>
    decreases e.len(),
{
    if e.len() == 0 {
        Seq::empty()
    } else {
        source_candidates(e.drop_last()) + if !ignored_dir_spec(e.last().0) {
            seq![e.len() - 1]
        } else {
            Seq::<int>::empty()
        }
    }
}

/// The upstream source directory among a package's directories (in the
/// order they are read): the first one that is not skipped and has a build
/// file; else the only one that is not skipped; else none.
pub open spec fn source_dir_choice(e: Seq<(Seq<char>, bool)>) -> Option<int> {
    match first_built_from(e, 0) {
        Some(i) => Some(i),
        None => if source_candidates(e).len() == 1 {
            Some(source_candidates(e)[0])
        } else {
            None
        },
    }
}

/// The index of the upstream source directory among a package's
/// directories, each given by its name and whether it holds a build file;
/// `None` when it cannot be told.
pub fn choose_source_dir(entries: &[(String, bool)]) -> (r: Option<usize>)
    ensures
        r is Some == source_dir_choice(dir_entries_view(entries@)) is Some,
        r matches Some(i) ==> source_dir_choice(dir_entries_view(entries@)) == Some(i as int),
{
    let ghost e = dir_entries_view(entries@);
    let mut count: usize = 0;
    let mut only: usize = 0;
    let mut i: usize = 0;
    assert(e.take(0) =~= Seq::<(Seq<char>, bool)>::empty());
    while i < entries.len()
        invariant
            e == dir_entries_view(entries@),
            e.len() == entries@.len(),
            i <= entries@.len(),
            count <= i,
            first_built_from(e, 0) == first_built_from(e, i as int),
            count == source_candidates(e.take(i as int)).len(),
            count >= 1 ==> only == source_candidates(e.take(i as int))[0],
        decreases entries@.len() - i,
    {
        let ghost before = e.take(i as int);
        assert(e.take(i + 1).drop_last() =~= before);
        assert(e.take(i + 1).last() == e[i as int]);
        assert(e[i as int] == (entries@[i as int].0@, entries@[i as int].1));
        let ignored = is_ignored_source_dir(entries[i].0.as_str());
        if !ignored && entries[i].1 {
            return Some(i);
        }
        if !ignored {
            if count == 0 {
                only = i;
            }
            count += 1;
        }
        i += 1;
    }
    assert(e.take(i as int) =~= e);
    if count == 1 {
        Some(only)
    } else {
        None
    }
}

/// Whether a package's build system is regenerated before configuring:
/// always for `xtrans`, and for every package when asked to.
pub fn needs_autoreconf(pkg: &str, autoreconf_all: bool) -> (r: bool)
    ensures
        r == (pkg@ == "xtrans"@ || autoreconf_all),
{
    let v = chars_of(pkg);
    let xtrans = chars_of("xtrans");
    chars_eq(&v, &xtrans) || autoreconf_all
}

} // verus!
