use xkbcompose::locale::{
    compose_locale_from_env, parse_locale_aliases, parse_locale_index, resolve_include_path,
    resolve_locale,
};
use xkbcompose::compose_map::LocaleMap;

fn chars(s: &str) -> Vec<char> {
    s.chars().collect()
}

#[test]
fn aliases_are_parsed() {
    let a = parse_locale_aliases("XCOMM aliases\n\nen_US: en_US.ISO8859-1\nde: de_DE.ISO8859-1\nen_US: en_US.UTF-8\nbroken\n");
    assert_eq!(a.get(&chars("en_US")).as_deref(), Some("en_US.UTF-8"));
    assert_eq!(a.get(&chars("de")).as_deref(), Some("de_DE.ISO8859-1"));
    assert_eq!(a.get(&chars("broken")), None);
    assert_eq!(a.get(&chars("XCOMM aliases")), None);
}

#[test]
fn index_is_keyed_by_locale() {
    let i = parse_locale_index("en_US.UTF-8/Compose:\ten_US.UTF-8\nC/Compose: C\n");
    assert_eq!(i.get(&chars("en_US.UTF-8")).as_deref(), Some("en_US.UTF-8/Compose"));
    assert_eq!(i.get(&chars("C")).as_deref(), Some("C/Compose"));
    assert_eq!(i.get(&chars("en_US.UTF-8/Compose")), None);
}

fn tables() -> (LocaleMap, LocaleMap) {
    let aliases = parse_locale_aliases("en: en_US.UTF-8\nfr_FR.UTF-8@euro: fr_FR.UTF-8\n");
    let index = parse_locale_index(
        "en_US.UTF-8/Compose: en_US.UTF-8\nfr_FR.UTF-8/Compose: fr_FR.UTF-8\nde_DE/Compose: de_DE\npt/Compose: pt\niso8859-1/Compose: C\n",
    );
    (aliases, index)
}

#[test]
fn locale_resolution_order() {
    let (aliases, index) = tables();
    assert_eq!(resolve_locale("en_US.UTF-8", &aliases, &index).as_deref(), Some("en_US.UTF-8/Compose"));
    // through the alias of the requested name
    assert_eq!(resolve_locale("en", &aliases, &index).as_deref(), Some("en_US.UTF-8/Compose"));
    // without the @modifier
    assert_eq!(resolve_locale("fr_FR.UTF-8@other", &aliases, &index).as_deref(), Some("fr_FR.UTF-8/Compose"));
    // without the codeset
    assert_eq!(resolve_locale("de_DE.ISO8859-15", &aliases, &index).as_deref(), Some("de_DE/Compose"));
    // the language alone
    assert_eq!(resolve_locale("pt_BR", &aliases, &index).as_deref(), Some("pt/Compose"));
    // C as the last fallback
    assert_eq!(resolve_locale("xx_YY", &aliases, &index).as_deref(), Some("iso8859-1/Compose"));
}

#[test]
fn locale_resolution_without_c() {
    let aliases = LocaleMap::new();
    let index = parse_locale_index("a/Compose: a\n");
    assert_eq!(resolve_locale("b", &aliases, &index), None);
    assert_eq!(resolve_locale("a", &aliases, &index).as_deref(), Some("a/Compose"));
}

#[test]
fn env_locale() {
    assert_eq!(compose_locale_from_env(Some(" de_DE "), Some("fr"), None).as_deref(), Some("de_DE"));
    assert_eq!(compose_locale_from_env(None, Some("fr_FR.UTF-8"), Some("C")).as_deref(), Some("fr_FR.UTF-8"));
    assert_eq!(compose_locale_from_env(None, None, Some("C")).as_deref(), Some("C"));
    // the first variable that is set decides, even when it is blank
    assert_eq!(compose_locale_from_env(Some("  "), Some("fr"), None), None);
    assert_eq!(compose_locale_from_env(None, None, None), None);
}

#[test]
fn include_paths() {
    let root = "/usr/share/X11/locale";
    let cur = "/usr/share/X11/locale/en_US.UTF-8/Compose";
    assert_eq!(
        resolve_include_path(cur, root, "X11_LOCALEDATADIR/en_US.UTF-8/Compose"),
        "/usr/share/X11/locale/en_US.UTF-8/Compose"
    );
    assert_eq!(resolve_include_path(cur, root, "/etc/Compose"), "/etc/Compose");
    assert_eq!(resolve_include_path(cur, root, "extra"), "/usr/share/X11/locale/en_US.UTF-8/extra");
    assert_eq!(resolve_include_path("/", root, "extra"), "/usr/share/X11/locale/extra");
    assert_eq!(resolve_include_path("Compose", root, "extra"), "extra");
    // an absolute path after the prefix replaces the locale root
    assert_eq!(resolve_include_path(cur, root, "X11_LOCALEDATADIR//etc/Compose"), "/etc/Compose");
}
