use xkbcompose::text::{
    chars_eq, chars_of, find_char, has_prefix_at, has_suffix_at, line_ranges,
    range_eq, string_from_chars, trim_range, trimmed_string,
};

#[test]
fn chars_round_trip() {
    let v = chars_of("héllo €");
    assert_eq!(v, vec!['h', 'é', 'l', 'l', 'o', ' ', '€']);
    assert_eq!(string_from_chars(&v), "héllo €");
}

#[test]
fn white_space() {
    for c in ['\t', '\n', '\u{b}', '\u{c}', '\r', ' ', '\u{85}', '\u{a0}', '\u{1680}', '\u{2000}', '\u{200a}', '\u{2028}', '\u{2029}', '\u{202f}', '\u{205f}', '\u{3000}'] {
        let v = vec!['x', c, 'y', c];
        assert_eq!(trim_range(&v, 1, 4), (2, 3), "{c:?}");
    }
    for c in ['a', '\u{200b}', '\u{feff}', '_', '\0'] {
        let v = vec![c, 'y', c];
        assert_eq!(trim_range(&v, 0, 3), (0, 3), "{c:?}");
    }
}

#[test]
fn trimming() {
    let v = chars_of("  a b \t");
    assert_eq!(trim_range(&v, 0, v.len()), (2, 5));
    assert_eq!(trimmed_string(&v, 0, v.len()), "a b");
    let blank = chars_of(" \u{3000} ");
    let (a, b) = trim_range(&blank, 0, blank.len());
    assert_eq!(a, b);
    assert_eq!(trimmed_string(&v, 0, 2), "");
}

#[test]
fn lines_like_std() {
    for s in ["", "a", "a\n", "a\nb", "a\r\nb\r\n", "\n\n", "x\r", "x\ry\n", "\r\n"] {
        let v = chars_of(s);
        let got: Vec<String> = line_ranges(&v).iter().map(|&(a, b)| string_from_chars(&v[a..b])).collect();
        let want: Vec<String> = s.lines().map(str::to_string).collect();
        assert_eq!(got, want, "{s:?}");
    }
}

#[test]
fn searching() {
    let v = chars_of("key: value: x");
    assert_eq!(find_char(&v, 0, v.len(), ':'), Some(3));
    assert_eq!(find_char(&v, 4, v.len(), ':'), Some(10));
    assert_eq!(find_char(&v, 0, 3, ':'), None);
    let p = chars_of("key");
    assert!(has_prefix_at(&v, 0, v.len(), &p));
    assert!(!has_prefix_at(&v, 1, v.len(), &p));
    assert!(has_suffix_at(&v, 0, v.len(), &chars_of(" x")));
    assert!(range_eq(&v, 5, 10, &chars_of("value")));
    assert!(chars_eq(&p, &chars_of("key")));
    assert!(!chars_eq(&p, &chars_of("kex")));
}
