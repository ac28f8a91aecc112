use xkbcompose::compose::{ComposeFeedResult, ComposeStatus as StateStatus};
use xkbcompose::xkb_compose::{system_compose_locale, ComposeStatus, ComposeStatusValue};
use xkbcompose::xkb_ffi::{
    xkb_compose_compile_flags, xkb_compose_feed_result, xkb_compose_state_flags, xkb_compose_status,
    xkb_context_flags, xkb_keymap_compile_flags, xkb_keymap_format,
    xkb_x11_setup_xkb_extension_flags, XKB_STATE_MODS_EFFECTIVE,
};
use xkbcompose::xkb_state::{effective_mods_changed, ModifiersState};

#[test]
fn status_from_xkb() {
    assert_eq!(ComposeStatusValue::from_xkb(xkb_compose_status::XKB_COMPOSE_NOTHING), ComposeStatusValue::Nothing);
    assert_eq!(ComposeStatusValue::from_xkb(xkb_compose_status::XKB_COMPOSE_COMPOSING), ComposeStatusValue::Composing);
    assert_eq!(ComposeStatusValue::from_xkb(xkb_compose_status::XKB_COMPOSE_COMPOSED), ComposeStatusValue::Composed);
    assert_eq!(ComposeStatusValue::from_xkb(xkb_compose_status::XKB_COMPOSE_CANCELLED), ComposeStatusValue::Cancelled);
}

#[test]
fn status_from_state_machine() {
    assert_eq!(ComposeStatusValue::from_state(StateStatus::Nothing), ComposeStatusValue::Nothing);
    assert_eq!(ComposeStatusValue::from_state(StateStatus::Composing), ComposeStatusValue::Composing);
    assert_eq!(ComposeStatusValue::from_state(StateStatus::Composed), ComposeStatusValue::Composed);
    assert_eq!(ComposeStatusValue::from_state(StateStatus::Cancelled), ComposeStatusValue::Cancelled);
}

#[test]
fn feed_status() {
    assert_eq!(
        ComposeStatus::from_xkb_feed(xkb_compose_feed_result::XKB_COMPOSE_FEED_IGNORED, ComposeStatusValue::Composing),
        ComposeStatus::Ignored
    );
    assert_eq!(
        ComposeStatus::from_xkb_feed(xkb_compose_feed_result::XKB_COMPOSE_FEED_ACCEPTED, ComposeStatusValue::Composed),
        ComposeStatus::Accepted(ComposeStatusValue::Composed)
    );
    assert_eq!(ComposeStatus::from_feed(ComposeFeedResult::Ignored, ComposeStatusValue::Nothing), ComposeStatus::Ignored);
    assert_eq!(
        ComposeStatus::from_feed(ComposeFeedResult::Accepted, ComposeStatusValue::Cancelled),
        ComposeStatus::Accepted(ComposeStatusValue::Cancelled)
    );
}

#[test]
fn system_locale() {
    let l = |s: &'static str| Some(s.as_bytes());
    assert_eq!(system_compose_locale(l("de_DE.UTF-8"), l("fr"), None), b"de_DE.UTF-8");
    assert_eq!(system_compose_locale(l(""), l("fr_FR"), l("en")), b"fr_FR");
    assert_eq!(system_compose_locale(None, l(""), l("en_US")), b"en_US");
    assert_eq!(system_compose_locale(None, None, None), b"C");
    assert_eq!(system_compose_locale(l(""), l(""), l("")), b"C");
    // values are not trimmed
    assert_eq!(system_compose_locale(l(" "), None, None), b" ");
    // bytes that are no UTF-8 pass through
    let raw: &[u8] = &[0x66, 0xff, 0x72];
    assert_eq!(system_compose_locale(Some(raw), None, None), raw);
}

#[test]
fn effective_modifiers() {
    assert!(effective_mods_changed(XKB_STATE_MODS_EFFECTIVE));
    assert!(effective_mods_changed(0x1ff));
    assert!(!effective_mods_changed(0x7));
    assert!(!effective_mods_changed(0));
}

#[test]
fn modifiers_default_is_none_active() {
    let m = ModifiersState::default();
    assert_eq!(m, ModifiersState { ctrl: false, alt: false, shift: false, caps_lock: false, logo: false, num_lock: false });
    let shifted = ModifiersState { shift: true, ..m };
    assert_ne!(m, shifted);
}

#[test]
fn c_values_of_the_enums() {
    assert_eq!(xkb_keymap_format::XKB_KEYMAP_FORMAT_TEXT_V1.c_value(), 1);
    assert_eq!(xkb_context_flags::XKB_CONTEXT_NO_FLAGS.c_value(), 0);
    assert_eq!(xkb_keymap_compile_flags::XKB_KEYMAP_COMPILE_NO_FLAGS.c_value(), 0);
    assert_eq!(xkb_compose_compile_flags::XKB_COMPOSE_COMPILE_NO_FLAGS.c_value(), 0);
    assert_eq!(xkb_compose_state_flags::XKB_COMPOSE_STATE_NO_FLAGS.c_value(), 0);
    assert_eq!(xkb_x11_setup_xkb_extension_flags::XKB_X11_SETUP_XKB_EXTENSION_NO_FLAGS.c_value(), 0);
    assert_eq!(xkb_compose_status::XKB_COMPOSE_CANCELLED.c_value(), 3);
    assert_eq!(xkb_compose_status::XKB_COMPOSE_NOTHING.c_value(), 0);
    assert_eq!(xkb_compose_feed_result::XKB_COMPOSE_FEED_ACCEPTED.c_value(), 1);
    // the values agree with libxkbcommon's own declarations
    assert_eq!(xkbcommon_dl::xkb_keymap_format::XKB_KEYMAP_FORMAT_TEXT_V1 as u32, 1);
    assert_eq!(xkbcommon_dl::xkb_compose_status::XKB_COMPOSE_CANCELLED as u32, 3);
}
