//! The keyboard modifiers that the keyboard layer tracks.

use vstd::prelude::*;
use crate::xkb_ffi::XKB_STATE_MODS_EFFECTIVE;

verus! {

/// Represents the current state of the keyboard modifiers
///
/// Each field of this struct represents a modifier and is `true` if this
/// modifier is active.
///
/// For some modifiers, this means that the key is currently pressed, others
/// are toggled (like caps lock).
#[derive(Copy, Clone, Debug, Default, PartialEq, Eq, Structural)]
pub struct ModifiersState {
    /// The "control" key
    pub ctrl: bool,
    /// The "alt" key
    pub alt: bool,
    /// The "shift" key
    pub shift: bool,
    /// The "Caps lock" key
    pub caps_lock: bool,
    /// The "logo" key
    ///
    /// Also known as the "windows" key on most keyboards
    pub logo: bool,
    /// The "Num lock" key
    pub num_lock: bool,
}

/// Whether a state update changed the effective modifiers, which is when
/// the tracked modifiers must be read again.
pub fn effective_mods_changed(changed: u32) -> (r: bool)
    ensures
        r == (changed & XKB_STATE_MODS_EFFECTIVE != 0),
{
    changed & XKB_STATE_MODS_EFFECTIVE != 0
}

} // verus!
