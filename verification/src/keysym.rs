//! Keyboard symbols as raw X11 keysym values, and what the compose logic
//! needs to know of them.

use vstd::prelude::*;

verus! {

/// The `Multi_key` (Compose) keysym.
pub const MULTI_KEY: u32 = 0xff20;
/// The dead-key keysyms that the algorithmic composition knows.
pub const DEAD_GRAVE: u32 = 0xfe50;
pub const DEAD_ACUTE: u32 = 0xfe51;
pub const DEAD_CIRCUMFLEX: u32 = 0xfe52;
pub const DEAD_TILDE: u32 = 0xfe53;
pub const DEAD_MACRON: u32 = 0xfe54;
pub const DEAD_BREVE: u32 = 0xfe55;
pub const DEAD_ABOVEDOT: u32 = 0xfe56;
pub const DEAD_DIAERESIS: u32 = 0xfe57;
pub const DEAD_ABOVERING: u32 = 0xfe58;
pub const DEAD_DOUBLEACUTE: u32 = 0xfe59;
pub const DEAD_CARON: u32 = 0xfe5a;
pub const DEAD_CEDILLA: u32 = 0xfe5b;
pub const DEAD_OGONEK: u32 = 0xfe5c;
pub const DEAD_BELOWDOT: u32 = 0xfe60;
pub const DEAD_HOOK: u32 = 0xfe61;
pub const DEAD_HORN: u32 = 0xfe62;
pub const DEAD_STROKE: u32 = 0xfe63;

/// The modifier keysyms: `Shift_L` to `Hyper_R`, `ISO_Lock` to
/// `ISO_Level5_Lock`, `Mode_switch` and `Num_Lock`.
pub open spec fn is_modifier_keysym(k: u32) -> bool {
    ||| 0xffe1 <= k <= 0xffee
    ||| 0xfe01 <= k <= 0xfe13
    ||| k == 0xff7e
    ||| k == 0xff7f
}

/// `xkeysym::Keysym::is_modifier_key`.
#[verifier::external_body]
pub(crate) fn is_modifier_key(k: u32) -> (r: bool)
    ensures
        r == is_modifier_keysym(k),
{
    xkeysym::Keysym::new(k).is_modifier_key()
}

/// The character that xkeysym's conversion table gives a keysym outside the
/// ranges that `key_char` maps by arithmetic.
pub uninterp spec fn keysym_table_char(k: u32) -> Option<char>;

/// Whether `key_char` maps `k` by arithmetic rather than by its table.
pub open spec fn is_arithmetic_keysym(k: u32) -> bool {
    ||| 0x20 <= k <= 0x7e
    ||| 0xa0 <= k <= 0xff
    ||| k == 0xff80
    ||| 0xff08 <= k <= 0xff0b
    ||| 0xffaa <= k <= 0xffb9
    ||| k == 0xff0d
    ||| k == 0xff1b
    ||| k == 0xffff
    ||| k == 0xff89
    ||| k == 0xff8d
    ||| k == 0xffbd
    ||| 0x01000000 <= k <= 0x0110ffff
}

/// The arithmetic part of the keysym-to-character map: Latin-1 keysyms are
/// their own code point, `KP_Space` is a space, a few keypad and control
/// keysyms map to their ASCII character, and `0x01000000 + c` is the code
/// point `c` (surrogates excluded).
pub open spec fn arithmetic_keysym_char(k: u32) -> Option<char> {
    if (0x20 <= k <= 0x7e) || (0xa0 <= k <= 0xff) {
        Some(k as char)
    } else if k == 0xff80 {
        Some(' ')
    } else if 0x01000000 <= k <= 0x0110ffff {
        if 0x0100d800 <= k <= 0x0100dfff {
            None
        } else {
            Some((k - 0x01000000) as char)
        }
    } else {
        Some((k & 0x7f) as char)
    }
}

/// The character a keysym stands for.
pub open spec fn keysym_char(k: u32) -> Option<char> {
    if is_arithmetic_keysym(k) {
        arithmetic_keysym_char(k)
    } else {
        keysym_table_char(k)
    }
}

/// `xkeysym::Keysym::key_char`: the character a keysym stands for, if any.
#[verifier::external_body]
pub(crate) fn key_char(k: u32) -> (r: Option<char>)
    ensures
        is_arithmetic_keysym(k) ==> r == arithmetic_keysym_char(k),
        !is_arithmetic_keysym(k) ==> r == keysym_table_char(k),
{
    xkeysym::Keysym::new(k).key_char()
}

} // verus!
