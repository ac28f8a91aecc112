//! The compose status that the keyboard layer reports, from either compose
//! backend: libxkbcommon's or the state machine of `compose`.

use vstd::prelude::*;
use crate::compose;
use crate::xkb_ffi::{xkb_compose_feed_result, xkb_compose_status};

verus! {

/// Where a compose sequence is.
#[derive(Copy, Clone, Debug, PartialEq, Eq, Structural)]
pub enum ComposeStatusValue {
    Nothing,
    Composing,
    Composed,
    Cancelled,
}

/// What feeding a keysym to the compose state did.
#[derive(Copy, Clone, Debug, PartialEq, Eq, Structural)]
pub enum ComposeStatus {
    /// The keysym was taken; the sequence is now in this status.
    Accepted(ComposeStatusValue),
    /// The keysym plays no part in composing.
    Ignored,
    /// There is no compose state (the `None` status of the keyboard layer).
    NoCompose,
}

impl ComposeStatusValue {
    /// The status libxkbcommon reports.
    pub fn from_xkb(status: xkb_compose_status) -> (r: ComposeStatusValue)
        ensures
            r == (match status {
                xkb_compose_status::XKB_COMPOSE_NOTHING => ComposeStatusValue::Nothing,
                xkb_compose_status::XKB_COMPOSE_COMPOSING => ComposeStatusValue::Composing,
                xkb_compose_status::XKB_COMPOSE_COMPOSED => ComposeStatusValue::Composed,
                xkb_compose_status::XKB_COMPOSE_CANCELLED => ComposeStatusValue::Cancelled,
            }),
    {
        match status {
            xkb_compose_status::XKB_COMPOSE_NOTHING => ComposeStatusValue::Nothing,
            xkb_compose_status::XKB_COMPOSE_COMPOSING => ComposeStatusValue::Composing,
            xkb_compose_status::XKB_COMPOSE_COMPOSED => ComposeStatusValue::Composed,
            xkb_compose_status::XKB_COMPOSE_CANCELLED => ComposeStatusValue::Cancelled,
        }
    }

    /// The status the compose state machine reports.
    pub fn from_state(status: compose::ComposeStatus) -> (r: ComposeStatusValue)
        ensures
            r == (match status {
                compose::ComposeStatus::Nothing => ComposeStatusValue::Nothing,
                compose::ComposeStatus::Composing => ComposeStatusValue::Composing,
                compose::ComposeStatus::Composed => ComposeStatusValue::Composed,
                compose::ComposeStatus::Cancelled => ComposeStatusValue::Cancelled,
            }),
    {
        match status {
            compose::ComposeStatus::Nothing => ComposeStatusValue::Nothing,
            compose::ComposeStatus::Composing => ComposeStatusValue::Composing,
            compose::ComposeStatus::Composed => ComposeStatusValue::Composed,
            compose::ComposeStatus::Cancelled => ComposeStatusValue::Cancelled,
        }
    }
}

impl ComposeStatus {
    /// What a libxkbcommon feed did, given the status after it.
    pub fn from_xkb_feed(result: xkb_compose_feed_result, status: ComposeStatusValue) -> (r:
        ComposeStatus)
        ensures
            r == (match result {
                xkb_compose_feed_result::XKB_COMPOSE_FEED_IGNORED => ComposeStatus::Ignored,
                xkb_compose_feed_result::XKB_COMPOSE_FEED_ACCEPTED => ComposeStatus::Accepted(status),
            }),
    {
        match result {
            xkb_compose_feed_result::XKB_COMPOSE_FEED_IGNORED => ComposeStatus::Ignored,
            xkb_compose_feed_result::XKB_COMPOSE_FEED_ACCEPTED => ComposeStatus::Accepted(status),
        }
    }

    /// What a feed of the compose state machine did, given the status after
    /// it.
    pub fn from_feed(result: compose::ComposeFeedResult, status: ComposeStatusValue) -> (r:
        ComposeStatus)
        ensures
            r == (match result {
                compose::ComposeFeedResult::Ignored => ComposeStatus::Ignored,
                compose::ComposeFeedResult::Accepted => ComposeStatus::Accepted(status),
            }),
    {
        match result {
            compose::ComposeFeedResult::Ignored => ComposeStatus::Ignored,
            compose::ComposeFeedResult::Accepted => ComposeStatus::Accepted(status),
        }
    }
}

/// The locale of the system compose table: the first of `LC_ALL`,
/// `LC_CTYPE` and `LANG` that is set and not empty, else `C`.
pub open spec fn system_locale_spec(
    lc_all: Option<Seq<u8>>,
    lc_ctype: Option<Seq<u8>>,
    lang: Option<Seq<u8>>,
) -> Seq<u8> {
    if lc_all is Some && lc_all->0.len() > 0 {
        lc_all->0
    } else if lc_ctype is Some && lc_ctype->0.len() > 0 {
        lc_ctype->0
    } else if lang is Some && lang->0.len() > 0 {
        lang->0
    } else {
        seq![0x43u8]
    }
}

/// The locale of the system compose table: the first of `LC_ALL`,
/// `LC_CTYPE` and `LANG` that is set to a non-empty value, untrimmed, and
/// `C` when none is.
pub proof fn lemma_system_locale_precedence(
    lc_all: Option<Seq<u8>>,
    lc_ctype: Option<Seq<u8>>,
    lang: Option<Seq<u8>>,
    v: Seq<u8>,
)
    ensures
        lc_all == Some(v) && v.len() > 0 ==> system_locale_spec(lc_all, lc_ctype, lang) == v,
        (lc_all is None || lc_all == Some(Seq::<u8>::empty())) && lc_ctype == Some(v) && v.len() > 0
            ==> system_locale_spec(lc_all, lc_ctype, lang) == v,
        (lc_all is None || lc_all == Some(Seq::<u8>::empty())) && (lc_ctype is None || lc_ctype == Some(
            Seq::<u8>::empty(),
        )) && lang == Some(v) && v.len() > 0 ==> system_locale_spec(lc_all, lc_ctype, lang) == v,
        (lc_all is None || lc_all == Some(Seq::<u8>::empty())) && (lc_ctype is None || lc_ctype == Some(
            Seq::<u8>::empty(),
        )) && (lang is None || lang == Some(Seq::<u8>::empty())) ==> system_locale_spec(
            lc_all,
            lc_ctype,
            lang,
        ) == seq!['C' as u8],
{
    assert(seq![0x43u8] =~= seq!['C' as u8]);
}

/// The view of an optional byte slice.
pub open spec fn opt_bytes_view(s: Option<&[u8]>) -> Option<Seq<u8>> {
    match s {
        Some(v) => Some(v@),
        None => None,
    }
}

/// The locale of the system compose table, from the raw values of
/// `LC_ALL`, `LC_CTYPE` and `LANG` (`None` for a variable that is not set).
pub fn system_compose_locale(lc_all: Option<&[u8]>, lc_ctype: Option<&[u8]>, lang: Option<&[u8]>) -> (r:
    Vec<u8>)
    ensures
        r@ == system_locale_spec(opt_bytes_view(lc_all), opt_bytes_view(lc_ctype), opt_bytes_view(lang)),
{
    let chosen: &[u8] = match lc_all {
        Some(v) if v.len() > 0 => v,
        _ => match lc_ctype {
            Some(v) if v.len() > 0 => v,
            _ => match lang {
                Some(v) if v.len() > 0 => v,
                _ => {
                    let c = vec![0x43u8];
                    assert(c@ =~= seq![0x43u8]);
                    return c;
                },
            },
        },
    };
    vstd::slice::slice_to_vec(chosen)
}

} // verus!
