use xkbcompose::compose_parse::{
    parse_compose_lines, parse_compose_string, parse_include, parse_sequence_names,
    split_mapping, ComposeLine,
};

#[test]
fn compose_string_plain() {
    assert_eq!(parse_compose_string("\"abc\"").as_deref(), Some("abc"));
    assert_eq!(parse_compose_string("\"æ\"   foo").as_deref(), Some("æ"));
    assert_eq!(parse_compose_string("\"\"").as_deref(), Some(""));
}

#[test]
fn compose_string_escapes() {
    assert_eq!(parse_compose_string("\"a\\nb\\\"c\\\\\"").as_deref(), Some("a\nb\"c\\"));
    assert_eq!(parse_compose_string("\"\\t\\r\"").as_deref(), Some("\t\r"));
    assert_eq!(parse_compose_string("\"\\q\"").as_deref(), Some("q"));
}

#[test]
fn compose_string_octal() {
    assert_eq!(parse_compose_string("\"\\101\"").as_deref(), Some("A"));
    assert_eq!(parse_compose_string("\"\\7x\"").as_deref(), Some("\u{7}x"));
    assert_eq!(parse_compose_string("\"\\1014\"").as_deref(), Some("A4"));
    assert_eq!(parse_compose_string("\"\\351\"").as_deref(), Some("é"));
    assert_eq!(parse_compose_string("\"\\377\"").as_deref(), Some("\u{ff}"));
    assert_eq!(parse_compose_string("\"\\777\""), None);
}

#[test]
fn compose_string_rejects() {
    assert_eq!(parse_compose_string("abc"), None);
    assert_eq!(parse_compose_string(""), None);
    assert_eq!(parse_compose_string("\"abc"), None);
    assert_eq!(parse_compose_string("\"abc\\"), None);
    assert_eq!(parse_compose_string(" \"abc\""), None);
}

#[test]
fn include_lines() {
    assert_eq!(parse_include("include \"%L\"").as_deref(), Some("%L"));
    assert_eq!(parse_include("include   \"/usr/x\"  more").as_deref(), Some("/usr/x"));
    assert_eq!(parse_include("include\"a\"").as_deref(), Some("a"));
    assert_eq!(parse_include("include %L"), None);
    assert_eq!(parse_include("include \"open"), None);
    assert_eq!(parse_include("<a> : \"b\""), None);
}

#[test]
fn mapping_lines() {
    assert_eq!(split_mapping("a: b"), Some(("a", "b")));
    assert_eq!(split_mapping("  en_US.UTF-8/Compose:   en_US.UTF-8 "), Some(("en_US.UTF-8/Compose", "en_US.UTF-8")));
    assert_eq!(split_mapping("x : y : z"), Some(("x", "y : z")));
    assert_eq!(split_mapping("a:"), None);
    assert_eq!(split_mapping(": b"), None);
    assert_eq!(split_mapping("no colon"), None);
}

#[test]
fn sequence_names() {
    assert_eq!(
        parse_sequence_names("<Multi_key> <a> <e>"),
        Some(vec!["Multi_key".to_string(), "a".to_string(), "e".to_string()])
    );
    assert_eq!(parse_sequence_names("  <dead_acute><a>  "), Some(vec!["dead_acute".to_string(), "a".to_string()]));
    assert_eq!(parse_sequence_names("<a> <b"), None);
    assert_eq!(parse_sequence_names(""), None);
    assert_eq!(parse_sequence_names("abc"), None);
}

#[test]
fn compose_file_lines() {
    let contents = "XCOMM comment\n\n# another\ninclude \"%L\"\n<Multi_key> <a> <e> : \"æ\" ae # latin\r\n<b> : bad\n<c> : \"\\777\"\n   <d> : \"x#y\"";
    let lines = parse_compose_lines(contents);
    assert_eq!(lines.len(), 8);
    assert!(matches!(lines[0], ComposeLine::Skip));
    assert!(matches!(lines[1], ComposeLine::Skip));
    assert!(matches!(lines[2], ComposeLine::Skip));
    match &lines[3] {
        ComposeLine::Include(p) => assert_eq!(p, "%L"),
        other => panic!("unexpected {other:?}"),
    }
    match &lines[4] {
        ComposeLine::Entry(names, text) => {
            assert_eq!(names, &vec!["Multi_key".to_string(), "a".to_string(), "e".to_string()]);
            assert_eq!(text, "æ");
        }
        other => panic!("unexpected {other:?}"),
    }
    assert!(matches!(lines[5], ComposeLine::Skip));
    assert!(matches!(lines[6], ComposeLine::Skip));
    // the comment cut happens before the string is read
    assert!(matches!(lines[7], ComposeLine::Skip));
}

#[test]
fn compose_file_without_lines() {
    assert_eq!(parse_compose_lines("").len(), 0);
    assert_eq!(parse_compose_lines("\n").len(), 1);
}
