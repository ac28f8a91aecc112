//! The data types of the libxkbcommon interface: opaque handles, the flag
//! and result enumerations (their variants in the order of the C headers,
//! each with its C value given by `c_value`), and the state component bits.

#![allow(non_camel_case_types)]

use vstd::prelude::*;

verus! {

/// An xkb context (opaque; only ever behind a pointer).
pub struct xkb_context {
    _private: [u8; 0],
}

/// An xkb keymap (opaque).
pub struct xkb_keymap {
    _private: [u8; 0],
}

/// An xkb keyboard state (opaque).
pub struct xkb_state {
    _private: [u8; 0],
}

/// A compiled compose table (opaque).
pub struct xkb_compose_table {
    _private: [u8; 0],
}

/// A compose state (opaque).
pub struct xkb_compose_state {
    _private: [u8; 0],
}

/// Flags for creating a context.
#[derive(Copy, Clone, Debug, PartialEq, Eq, Structural)]
pub enum xkb_context_flags {
    XKB_CONTEXT_NO_FLAGS,
}

/// Flags for compiling a keymap.
#[derive(Copy, Clone, Debug, PartialEq, Eq, Structural)]
pub enum xkb_keymap_compile_flags {
    XKB_KEYMAP_COMPILE_NO_FLAGS,
}

/// Keymap formats.
#[derive(Copy, Clone, Debug, PartialEq, Eq, Structural)]
pub enum xkb_keymap_format {
    XKB_KEYMAP_FORMAT_TEXT_V1,
}

/// Flags for compiling a compose table.
#[derive(Copy, Clone, Debug, PartialEq, Eq, Structural)]
pub enum xkb_compose_compile_flags {
    XKB_COMPOSE_COMPILE_NO_FLAGS,
}

/// Flags for creating a compose state.
#[derive(Copy, Clone, Debug, PartialEq, Eq, Structural)]
pub enum xkb_compose_state_flags {
    XKB_COMPOSE_STATE_NO_FLAGS,
}

/// The status of a compose state.
#[derive(Copy, Clone, Debug, PartialEq, Eq, Structural)]
pub enum xkb_compose_status {
    XKB_COMPOSE_NOTHING,
    XKB_COMPOSE_COMPOSING,
    XKB_COMPOSE_COMPOSED,
    XKB_COMPOSE_CANCELLED,
}

/// What feeding a keysym to a compose state did.
#[derive(Copy, Clone, Debug, PartialEq, Eq, Structural)]
pub enum xkb_compose_feed_result {
    XKB_COMPOSE_FEED_IGNORED,
    XKB_COMPOSE_FEED_ACCEPTED,
}

/// Flags for setting up the XKB extension of an X server.
#[derive(Copy, Clone, Debug, PartialEq, Eq, Structural)]
pub enum xkb_x11_setup_xkb_extension_flags {
    XKB_X11_SETUP_XKB_EXTENSION_NO_FLAGS,
}

impl xkb_context_flags {
    /// The value of the flag in the C interface.
    pub fn c_value(self) -> (r: u32)
        ensures
            r == 0,
    {
        0
    }
}

impl xkb_keymap_compile_flags {
    /// The value of the flag in the C interface.
    pub fn c_value(self) -> (r: u32)
        ensures
            r == 0,
    {
        0
    }
}

impl xkb_keymap_format {
    /// The value of the format in the C interface: `TEXT_V1` is 1.
    pub fn c_value(self) -> (r: u32)
        ensures
            r == 1,
    {
        1
    }
}

impl xkb_compose_compile_flags {
    /// The value of the flag in the C interface.
    pub fn c_value(self) -> (r: u32)
        ensures
            r == 0,
    {
        0
    }
}

impl xkb_compose_state_flags {
    /// The value of the flag in the C interface.
    pub fn c_value(self) -> (r: u32)
        ensures
            r == 0,
    {
        0
    }
}

impl xkb_compose_status {
    /// The value of the status in the C interface.
    pub fn c_value(self) -> (r: u32)
        ensures
            r == (match self {
                xkb_compose_status::XKB_COMPOSE_NOTHING => 0u32,
                xkb_compose_status::XKB_COMPOSE_COMPOSING => 1u32,
                xkb_compose_status::XKB_COMPOSE_COMPOSED => 2u32,
                xkb_compose_status::XKB_COMPOSE_CANCELLED => 3u32,
            }),
    {
        match self {
            xkb_compose_status::XKB_COMPOSE_NOTHING => 0,
            xkb_compose_status::XKB_COMPOSE_COMPOSING => 1,
            xkb_compose_status::XKB_COMPOSE_COMPOSED => 2,
            xkb_compose_status::XKB_COMPOSE_CANCELLED => 3,
        }
    }
}

impl xkb_compose_feed_result {
    /// The value of the result in the C interface.
    pub fn c_value(self) -> (r: u32)
        ensures
            r == (match self {
                xkb_compose_feed_result::XKB_COMPOSE_FEED_IGNORED => 0u32,
                xkb_compose_feed_result::XKB_COMPOSE_FEED_ACCEPTED => 1u32,
            }),
    {
        match self {
            xkb_compose_feed_result::XKB_COMPOSE_FEED_IGNORED => 0,
            xkb_compose_feed_result::XKB_COMPOSE_FEED_ACCEPTED => 1,
        }
    }
}

impl xkb_x11_setup_xkb_extension_flags {
    /// The value of the flag in the C interface.
    pub fn c_value(self) -> (r: u32)
        ensures
            r == 0,
    {
        0
    }
}

/// The components of a keyboard state, as the bits of an
/// `xkb_state_component` mask.
pub const XKB_STATE_MODS_DEPRESSED: u32 = 1;
pub const XKB_STATE_MODS_LATCHED: u32 = 2;
pub const XKB_STATE_MODS_LOCKED: u32 = 4;
pub const XKB_STATE_MODS_EFFECTIVE: u32 = 8;
pub const XKB_STATE_LAYOUT_DEPRESSED: u32 = 16;
pub const XKB_STATE_LAYOUT_LATCHED: u32 = 32;
pub const XKB_STATE_LAYOUT_LOCKED: u32 = 64;
pub const XKB_STATE_LAYOUT_EFFECTIVE: u32 = 128;
pub const XKB_STATE_LEDS: u32 = 256;

/// The modifier index that stands for "no such modifier".
pub const XKB_MOD_INVALID: u32 = 0xffffffff;

} // verus!
