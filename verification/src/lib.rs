//! Keyboard composition, X resource-id allocation and the pure parts of an
//! X11/XKB support layer, each stated and proved with Verus.

pub mod build_support;
pub mod compose;
pub mod compose_map;
pub mod compose_parse;
pub mod keysym;
pub mod locale;
pub mod text;
pub mod visited;
pub mod xid;
pub mod xkb_ffi;
pub mod xkb_compose;
pub mod xkb_state;
