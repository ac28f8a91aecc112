use xkbcompose::compose::{
    dead_accent_from_char, dead_accent_from_keysym, dead_accent_from_prefix, compose_text,
    ComposeFeedResult, ComposeState, ComposeStatus, ComposeTable, DeadAccent,
};
use xkbcompose::compose_map::ComposeMap;
use xkbcompose::keysym;
use xkeysym::key;

fn empty_state() -> ComposeState {
    ComposeTable::from_entries(None, ComposeMap::new()).new_state()
}

fn text(state: &ComposeState) -> Option<String> {
    state.get_utf8().map(|b| String::from_utf8(b).unwrap())
}

#[test]
fn keysym_values_match_xkeysym() {
    assert_eq!(keysym::MULTI_KEY, key::Multi_key);
    assert_eq!(keysym::DEAD_GRAVE, key::dead_grave);
    assert_eq!(keysym::DEAD_ACUTE, key::dead_acute);
    assert_eq!(keysym::DEAD_CIRCUMFLEX, key::dead_circumflex);
    assert_eq!(keysym::DEAD_TILDE, key::dead_tilde);
    assert_eq!(keysym::DEAD_MACRON, key::dead_macron);
    assert_eq!(keysym::DEAD_BREVE, key::dead_breve);
    assert_eq!(keysym::DEAD_ABOVEDOT, key::dead_abovedot);
    assert_eq!(keysym::DEAD_DIAERESIS, key::dead_diaeresis);
    assert_eq!(keysym::DEAD_ABOVERING, key::dead_abovering);
    assert_eq!(keysym::DEAD_DOUBLEACUTE, key::dead_doubleacute);
    assert_eq!(keysym::DEAD_CARON, key::dead_caron);
    assert_eq!(keysym::DEAD_CEDILLA, key::dead_cedilla);
    assert_eq!(keysym::DEAD_OGONEK, key::dead_ogonek);
    assert_eq!(keysym::DEAD_BELOWDOT, key::dead_belowdot);
    assert_eq!(keysym::DEAD_HOOK, key::dead_hook);
    assert_eq!(keysym::DEAD_HORN, key::dead_horn);
    assert_eq!(keysym::DEAD_STROKE, key::dead_stroke);
}

/// The text that a dead acute followed by `keysym` composes, if any.
fn after_dead_acute(keysym: u32) -> Option<String> {
    let mut state = empty_state();
    state.feed(keysym::DEAD_ACUTE);
    state.feed(keysym);
    text(&state)
}

#[test]
fn key_char_maps_keysyms() {
    assert_eq!(after_dead_acute(0x61).as_deref(), Some("a\u{301}"));
    assert_eq!(after_dead_acute(0xe9).as_deref(), Some("é\u{301}"));
    assert_eq!(after_dead_acute(0x0100_20ac).as_deref(), Some("€\u{301}"));
    assert_eq!(after_dead_acute(0xff08).as_deref(), Some("\u{8}\u{301}"));
    assert_eq!(after_dead_acute(0xffaa).as_deref(), Some("*\u{301}"));
    // a keysym from the conversion table: Greek alpha
    assert_eq!(after_dead_acute(0x07e1).as_deref(), Some("α\u{301}"));
    // KP_Space is a space: the accent on its own
    assert_eq!(after_dead_acute(0xff80).as_deref(), Some("\u{b4}"));
    // a surrogate code point has no character: cancelled
    let mut state = empty_state();
    state.feed(keysym::DEAD_ACUTE);
    state.feed(0x0100_d800);
    assert_eq!(state.status(), ComposeStatus::Cancelled);
    assert_eq!(text(&state), None);
}

#[test]
fn modifier_keys() {
    // Shift_L, Hyper_R, ISO_Level3_Shift, Mode_switch, Num_Lock
    for k in [0xffe1, 0xffee, 0xfe03, 0xff7e, 0xff7f] {
        let mut state = empty_state();
        state.feed(keysym::DEAD_GRAVE);
        assert_eq!(state.feed(k), ComposeFeedResult::Ignored, "{k:#x}");
        assert_eq!(state.status(), ComposeStatus::Composing, "{k:#x}");
    }
    for k in [0x61, keysym::DEAD_GRAVE, 0xffe0, 0xffef] {
        let mut state = empty_state();
        assert_eq!(state.feed(k), ComposeFeedResult::Accepted, "{k:#x}");
    }
}

#[test]
fn dead_accent_table() {
    assert_eq!(
        dead_accent_from_keysym(keysym::DEAD_ACUTE),
        Some(DeadAccent { keysym: keysym::DEAD_ACUTE, combining: '\u{0301}', spacing: Some('\u{00B4}') })
    );
    assert_eq!(
        dead_accent_from_keysym(keysym::DEAD_STROKE),
        Some(DeadAccent { keysym: keysym::DEAD_STROKE, combining: '\u{0335}', spacing: None })
    );
    assert_eq!(dead_accent_from_keysym(0x61), None);
    assert_eq!(dead_accent_from_char(Some('o')).map(|a| a.keysym), Some(keysym::DEAD_ABOVERING));
    assert_eq!(dead_accent_from_char(Some('V')).map(|a| a.keysym), Some(keysym::DEAD_CARON));
    assert_eq!(dead_accent_from_char(Some('x')), None);
    assert_eq!(dead_accent_from_char(None), None);
    assert_eq!(dead_accent_from_prefix(0x27).map(|a| a.keysym), Some(keysym::DEAD_ACUTE));
    assert_eq!(dead_accent_from_prefix(0x2f).map(|a| a.keysym), Some(keysym::DEAD_STROKE));
}

#[test]
fn compose_text_appends_marks() {
    let a = dead_accent_from_keysym(keysym::DEAD_ACUTE).unwrap();
    let d = dead_accent_from_keysym(keysym::DEAD_DIAERESIS).unwrap();
    assert_eq!(compose_text('u', &[a, d]), "u\u{0301}\u{0308}");
    assert_eq!(compose_text('x', &[]), "x");
}

#[test]
fn dead_key_then_letter() {
    let mut s = empty_state();
    assert_eq!(s.status(), ComposeStatus::Nothing);
    assert_eq!(s.feed(keysym::DEAD_ACUTE), ComposeFeedResult::Accepted);
    assert_eq!(s.status(), ComposeStatus::Composing);
    assert_eq!(s.get_utf8(), None);
    assert_eq!(s.feed(0x65), ComposeFeedResult::Accepted);
    assert_eq!(s.status(), ComposeStatus::Composed);
    assert_eq!(s.get_utf8(), Some(vec![0x65, 0xcc, 0x81]));
}

#[test]
fn dead_key_twice_gives_spacing_accent() {
    let mut s = empty_state();
    s.feed(keysym::DEAD_ACUTE);
    s.feed(keysym::DEAD_ACUTE);
    assert_eq!(text(&s).as_deref(), Some("\u{00B4}"));
    let mut s = empty_state();
    s.feed(keysym::DEAD_BELOWDOT);
    s.feed(keysym::DEAD_BELOWDOT);
    assert_eq!(text(&s).as_deref(), Some("\u{0323}"));
}

#[test]
fn dead_key_then_space_gives_spacing_accent() {
    let mut s = empty_state();
    s.feed(keysym::DEAD_GRAVE);
    s.feed(0x20);
    assert_eq!(text(&s).as_deref(), Some("`"));
}

#[test]
fn two_different_dead_keys_stack() {
    let mut s = empty_state();
    s.feed(keysym::DEAD_ACUTE);
    s.feed(keysym::DEAD_DIAERESIS);
    assert_eq!(s.status(), ComposeStatus::Composing);
    s.feed(0x61);
    assert_eq!(text(&s).as_deref(), Some("a\u{0301}\u{0308}"));
}

#[test]
fn compose_key_with_accent_character() {
    let mut s = empty_state();
    s.feed(keysym::MULTI_KEY);
    assert_eq!(s.status(), ComposeStatus::Composing);
    s.feed(0x27); // apostrophe
    assert_eq!(s.status(), ComposeStatus::Composing);
    s.feed(0x65);
    assert_eq!(text(&s).as_deref(), Some("e\u{0301}"));
}

#[test]
fn compose_key_then_other_cancels() {
    let mut s = empty_state();
    s.feed(keysym::MULTI_KEY);
    s.feed(0x78);
    assert_eq!(s.status(), ComposeStatus::Cancelled);
    assert_eq!(s.get_utf8(), None);
}

#[test]
fn dead_key_then_non_character_cancels() {
    let mut s = empty_state();
    s.feed(keysym::DEAD_TILDE);
    s.feed(0xff51); // Left
    assert_eq!(s.status(), ComposeStatus::Cancelled);
}

#[test]
fn plain_key_does_nothing() {
    let mut s = empty_state();
    assert_eq!(s.feed(0x61), ComposeFeedResult::Accepted);
    assert_eq!(s.status(), ComposeStatus::Nothing);
}

#[test]
fn modifiers_are_ignored() {
    let mut s = empty_state();
    s.feed(keysym::DEAD_ACUTE);
    assert_eq!(s.feed(0xffe1), ComposeFeedResult::Ignored);
    assert_eq!(s.status(), ComposeStatus::Composing);
    s.feed(0x45);
    assert_eq!(text(&s).as_deref(), Some("E\u{0301}"));
}

#[test]
fn finished_state_restarts_on_next_key() {
    let mut s = empty_state();
    s.feed(keysym::DEAD_ACUTE);
    s.feed(0x61);
    assert_eq!(s.status(), ComposeStatus::Composed);
    s.feed(keysym::DEAD_GRAVE);
    assert_eq!(s.status(), ComposeStatus::Composing);
    s.feed(0x61);
    assert_eq!(text(&s).as_deref(), Some("a\u{0300}"));
}

#[test]
fn reset_clears() {
    let mut s = empty_state();
    s.feed(keysym::DEAD_ACUTE);
    s.reset();
    assert_eq!(s.status(), ComposeStatus::Nothing);
    assert_eq!(s.get_utf8(), None);
    s.feed(0x61);
    assert_eq!(s.status(), ComposeStatus::Nothing);
}

fn ae_table() -> ComposeTable {
    let mut m = ComposeMap::new();
    m.insert(vec![keysym::MULTI_KEY, 0x61, 0x65], "æ".to_string());
    m.insert(vec![keysym::MULTI_KEY, 0x6f, 0x65], "œ".to_string());
    m.insert(vec![keysym::MULTI_KEY, 0x6f, 0x65], "Œ".to_string());
    ComposeTable::from_entries(Some("en_US.UTF-8".to_string()), m)
}

#[test]
fn table_entries_are_kept_in_the_map() {
    let mut m = ComposeMap::new();
    m.insert(vec![keysym::MULTI_KEY, 0x6f, 0x65], "œ".to_string());
    m.insert(vec![keysym::MULTI_KEY, 0x6f, 0x65], "Œ".to_string());
    assert_eq!(m.get(&vec![keysym::MULTI_KEY, 0x6f, 0x65]).as_deref(), Some("Œ"));
    assert!(m.has_prefix(&vec![keysym::MULTI_KEY, 0x6f]));
    assert!(!m.has_prefix(&vec![0x6f]));
}

#[test]
fn loaded_table_does_not_decide() {
    let keys = [
        keysym::MULTI_KEY, 0x61, 0x65, keysym::DEAD_ACUTE, 0x61, keysym::MULTI_KEY, 0x6f,
        0x65, 0xffe1, keysym::DEAD_GRAVE, keysym::DEAD_GRAVE, 0x7a,
    ];
    let mut with_table = ae_table().new_state();
    let mut fresh = ComposeState::default();
    for k in keys {
        assert_eq!(with_table.feed(k), fresh.feed(k), "{k:#x}");
        assert_eq!(with_table.status(), fresh.status(), "{k:#x}");
        assert_eq!(with_table.get_utf8(), fresh.get_utf8(), "{k:#x}");
    }
}

#[test]
fn compose_key_sequence_of_table_goes_by_accents() {
    // Multi_key a e: 'a' is no accent character after the Compose key
    let mut s = ae_table().new_state();
    s.feed(keysym::MULTI_KEY);
    assert_eq!(s.status(), ComposeStatus::Composing);
    s.feed(0x61);
    assert_eq!(s.status(), ComposeStatus::Cancelled);
    assert_eq!(text(&s), None);
}

#[test]
fn table_state_composes_by_dead_keys() {
    let mut s = ae_table().new_state();
    s.feed(keysym::DEAD_ACUTE);
    assert_eq!(s.status(), ComposeStatus::Composing);
    s.feed(0x61);
    assert_eq!(text(&s).as_deref(), Some("a\u{0301}"));
}

#[test]
fn dead_acute_then_o_composes_o_with_acute() {
    let mut s = ComposeState::default();
    s.feed(keysym::DEAD_ACUTE);
    assert_eq!(s.feed(0x6f), ComposeFeedResult::Accepted);
    assert_eq!(s.status(), ComposeStatus::Composed);
    assert_eq!(s.get_utf8(), Some("o\u{301}".as_bytes().to_vec()));
}

#[test]
fn accent_characters_after_dead_key_are_bases() {
    for (k, c) in [(0x75u32, 'u'), (0x76, 'v'), (0x2d, '-'), (0x2e, '.'), (0x2c, ','), (0x3b, ';'), (0x2f, '/'), (0x27, '\''), (0x22, '"')] {
        let mut s = empty_state();
        s.feed(keysym::DEAD_GRAVE);
        s.feed(k);
        assert_eq!(text(&s), Some(format!("{c}\u{300}")), "{k:#x}");
    }
}

#[test]
fn compose_key_then_accent_character_then_letter() {
    // after the Compose key the characters do stand for accents
    let mut s = empty_state();
    s.feed(keysym::MULTI_KEY);
    s.feed(0x6f);
    assert_eq!(s.status(), ComposeStatus::Composing);
    s.feed(0x61);
    assert_eq!(text(&s).as_deref(), Some("a\u{030A}"));
}

#[test]
fn feed_with_char_uses_given_character() {
    let mut s = empty_state();
    s.feed_with_char(keysym::DEAD_CARON, None);
    s.feed_with_char(0x1234_5678, Some('z'));
    assert_eq!(text(&s).as_deref(), Some("z\u{030C}"));
}

#[test]
fn default_table_and_state_compose_by_dead_keys() {
    let mut from_table = ComposeTable::default().new_state();
    let mut fresh = ComposeState::default();
    for state in [&mut from_table, &mut fresh] {
        assert_eq!(state.status(), ComposeStatus::Nothing);
        state.feed(keysym::DEAD_GRAVE);
        state.feed(0x65);
        assert_eq!(text(state).as_deref(), Some("e\u{300}"));
    }
}

#[test]
fn dead_key_then_kp_space_gives_spacing_accent() {
    let mut s = empty_state();
    s.feed(keysym::DEAD_TILDE);
    s.feed(0xff80); // KP_Space
    assert_eq!(text(&s).as_deref(), Some("~"));
}
