//! The compose state machine: dead keys and the Compose (`Multi_key`) key
//! followed by an accent character turn a stream of keysyms into text. A
//! state carries the compose table it was made from, but composition is
//! algorithmic and does not consult it.

use vstd::prelude::*;
use crate::compose_map::ComposeMap;
use crate::keysym::{
    DEAD_ABOVEDOT, DEAD_ABOVERING, DEAD_ACUTE, DEAD_BELOWDOT, DEAD_BREVE, DEAD_CARON,
    DEAD_CEDILLA, DEAD_CIRCUMFLEX, DEAD_DIAERESIS, DEAD_DOUBLEACUTE, DEAD_GRAVE, DEAD_HOOK,
    DEAD_HORN, DEAD_MACRON, DEAD_OGONEK, DEAD_STROKE, DEAD_TILDE, MULTI_KEY, is_modifier_key,
    is_modifier_keysym, key_char, keysym_char,
};
use crate::text::push_char;

verus! {

/// Result of feeding a keysym into the compose state machine.
#[derive(Clone, Copy, Debug, PartialEq, Eq, Structural)]
pub enum ComposeFeedResult {
    Ignored,
    Accepted,
}

/// Current state of the compose state machine.
#[derive(Clone, Copy, Debug, PartialEq, Eq, Structural)]
pub enum ComposeStatus {
    Nothing,
    Composing,
    Composed,
    Cancelled,
}

/// A dead key: its keysym, the combining mark it adds to a base character,
/// and the spacing character it stands for on its own (if it has one).
#[derive(Clone, Copy, Debug, PartialEq, Eq, Structural)]
pub struct DeadAccent {
    pub keysym: u32,
    pub combining: char,
    pub spacing: Option<char>,
}

/// Where the state machine is.
#[derive(Clone, Debug)]
pub enum ComposeInner {
    Nothing,
    MultiKey,
    Dead(Vec<DeadAccent>),
    TableComposing,
    Composed(String),
    Cancelled,
}

/// `ComposeInner` as plain values.
pub ghost enum InnerView {
    Nothing,
    MultiKey,
    Dead(Seq<DeadAccent>),
    TableComposing,
    Composed(Seq<char>),
    Cancelled,
}

impl View for ComposeInner {
    type V = InnerView;

    open spec fn view(&self) -> InnerView {
        match self {
            ComposeInner::Nothing => InnerView::Nothing,
            ComposeInner::MultiKey => InnerView::MultiKey,
            ComposeInner::Dead(a) => InnerView::Dead(a@),
            ComposeInner::TableComposing => InnerView::TableComposing,
            ComposeInner::Composed(t) => InnerView::Composed(t@),
            ComposeInner::Cancelled => InnerView::Cancelled,
        }
    }
}

/// A compose state as plain values: the table it was made from, the keysym
/// sequence it holds (empty after a reset), and where the state machine is.
pub ghost struct ComposeStateView {
    pub table: Map<Seq<u32>, Seq<char>>,
    pub sequence: Seq<u32>,
    pub inner: InnerView,
}

/// A compose table, loaded for a locale.
#[derive(Clone, Debug)]
pub struct ComposeTable {
    locale: Option<String>,
    entries: ComposeMap,
}

/// The state of one composition in progress.
#[derive(Clone, Debug)]
pub struct ComposeState {
    table: ComposeMap,
    sequence: Vec<u32>,
    state: ComposeInner,
}

impl View for ComposeTable {
    type V = Map<Seq<u32>, Seq<char>>;

    closed spec fn view(&self) -> Map<Seq<u32>, Seq<char>> {
        self.entries@
    }
}

impl View for ComposeState {
    type V = ComposeStateView;

    closed spec fn view(&self) -> ComposeStateView {
        ComposeStateView { table: self.table@, sequence: self.sequence@, inner: self.state@ }
    }
}

/// The accent a dead keysym stands for.
pub open spec fn dead_accent_spec(k: u32) -> Option<DeadAccent> {
    let a = |combining: char, spacing: Option<char>|
        Some(DeadAccent { keysym: k, combining, spacing });
    if k == DEAD_GRAVE {
        a('\u{0300}', Some('`'))
    } else if k == DEAD_ACUTE {
        a('\u{0301}', Some('\u{00B4}'))
    } else if k == DEAD_CIRCUMFLEX {
        a('\u{0302}', Some('^'))
    } else if k == DEAD_TILDE {
        a('\u{0303}', Some('~'))
    } else if k == DEAD_MACRON {
        a('\u{0304}', Some('\u{00AF}'))
    } else if k == DEAD_BREVE {
        a('\u{0306}', Some('\u{02D8}'))
    } else if k == DEAD_ABOVEDOT {
        a('\u{0307}', Some('\u{02D9}'))
    } else if k == DEAD_DIAERESIS {
        a('\u{0308}', Some('\u{00A8}'))
    } else if k == DEAD_ABOVERING {
        a('\u{030A}', Some('\u{02DA}'))
    } else if k == DEAD_DOUBLEACUTE {
        a('\u{030B}', Some('\u{02DD}'))
    } else if k == DEAD_CARON {
        a('\u{030C}', Some('\u{02C7}'))
    } else if k == DEAD_CEDILLA {
        a('\u{0327}', Some('\u{00B8}'))
    } else if k == DEAD_OGONEK {
        a('\u{0328}', Some('\u{02DB}'))
    } else if k == DEAD_BELOWDOT {
        a('\u{0323}', None)
    } else if k == DEAD_HOOK {
        a('\u{0309}', None)
    } else if k == DEAD_HORN {
        a('\u{031B}', None)
    } else if k == DEAD_STROKE {
        a('\u{0335}', None)
    } else {
        None
    }
}

/// The dead keysym that a character typed after the Compose key stands for.
pub open spec fn dead_keysym_for_char(c: char) -> Option<u32> {
    if c == '\'' {
        Some(DEAD_ACUTE)
    } else if c == '`' {
        Some(DEAD_GRAVE)
    } else if c == '^' {
        Some(DEAD_CIRCUMFLEX)
    } else if c == '~' {
        Some(DEAD_TILDE)
    } else if c == '"' {
        Some(DEAD_DIAERESIS)
    } else if c == '-' {
        Some(DEAD_MACRON)
    } else if c == ',' {
        Some(DEAD_CEDILLA)
    } else if c == '.' {
        Some(DEAD_BELOWDOT)
    } else if c == 'o' || c == 'O' {
        Some(DEAD_ABOVERING)
    } else if c == 'u' || c == 'U' {
        Some(DEAD_BREVE)
    } else if c == 'v' || c == 'V' {
        Some(DEAD_CARON)
    } else if c == ';' {
        Some(DEAD_OGONEK)
    } else if c == '/' {
        Some(DEAD_STROKE)
    } else {
        None
    }
}

/// The accent that the character of a keysym typed after the Compose key
/// stands for.
pub open spec fn dead_accent_for_char(ch: Option<char>) -> Option<DeadAccent> {
    match ch {
        Some(c) => match dead_keysym_for_char(c) {
            Some(k) => dead_accent_spec(k),
            None => None,
        },
        None => None,
    }
}

/// The accent a keysym stands for after the Compose key: its own, else the
/// one its character stands for.
pub open spec fn accent_of(k: u32, ch: Option<char>) -> Option<DeadAccent> {
    match dead_accent_spec(k) {
        Some(a) => Some(a),
        None => dead_accent_for_char(ch),
    }
}

/// The text of an accent on its own: its spacing character, else its
/// combining mark.
pub open spec fn accent_alone(a: DeadAccent) -> Seq<char> {
    match a.spacing {
        Some(c) => seq![c],
        None => seq![a.combining],
    }
}

/// A base character followed by the combining marks of the accents.
pub open spec fn compose_text_spec(base: char, accents: Seq<DeadAccent>) -> Seq<char> {
    seq![base] + accents.map_values(|a: DeadAccent| a.combining)
}

/// One step of composition by dead keys, for keysym `k` whose character is
/// `ch`.  A finished state (composed or cancelled) is never stepped: feeding
/// resets it first; it steps here as from `Nothing`.
pub open spec fn algorithmic_step(inner: InnerView, k: u32, ch: Option<char>) -> InnerView {
    match inner {
        InnerView::MultiKey => match accent_of(k, ch) {
            Some(a) => InnerView::Dead(seq![a]),
            None => InnerView::Cancelled,
        },
        InnerView::Dead(accents) => match dead_accent_spec(k) {
            Some(a) => if accents.len() == 1 && accents[0] == a {
                InnerView::Composed(accent_alone(a))
            } else {
                InnerView::Dead(accents.push(a))
            },
            None => match ch {
                Some(base) => if accents.len() == 1 && base == ' ' {
                    InnerView::Composed(accent_alone(accents[0]))
                } else {
                    InnerView::Composed(compose_text_spec(base, accents))
                },
                None => InnerView::Cancelled,
            },
        },
        InnerView::TableComposing => InnerView::Cancelled,
        _ => if k == MULTI_KEY {
            InnerView::MultiKey
        } else {
            match dead_accent_spec(k) {
                Some(a) => InnerView::Dead(seq![a]),
                None => InnerView::Nothing,
            }
        },
    }
}

/// Whether the state machine has finished a composition.
pub open spec fn is_finished(inner: InnerView) -> bool {
    inner is Composed || inner is Cancelled
}

/// The state after `reset`.
pub open spec fn reset_spec(s: ComposeStateView) -> ComposeStateView {
    ComposeStateView { sequence: Seq::empty(), inner: InnerView::Nothing, ..s }
}

/// Feeding keysym `k`, whose character is `ch`: modifier keysyms are
/// ignored; otherwise a finished state is reset first, the keysym is
/// accepted and composition goes by dead keys and the Compose key. The
/// table the state was made from plays no part.
pub open spec fn feed_spec(s: ComposeStateView, k: u32, ch: Option<char>) -> (
    ComposeStateView,
    ComposeFeedResult,
) {
    if is_modifier_keysym(k) {
        (s, ComposeFeedResult::Ignored)
    } else {
        let s1 = if is_finished(s.inner) {
            reset_spec(s)
        } else {
            s
        };
        (ComposeStateView { inner: algorithmic_step(s1.inner, k, ch), ..s1 }, ComposeFeedResult::Accepted)
    }
}

/// The status of a state.
pub open spec fn status_spec(inner: InnerView) -> ComposeStatus {
    match inner {
        InnerView::Nothing => ComposeStatus::Nothing,
        InnerView::Composed(_) => ComposeStatus::Composed,
        InnerView::Cancelled => ComposeStatus::Cancelled,
        _ => ComposeStatus::Composing,
    }
}

/// The UTF-8 bytes of the composed text, once there is one.
pub open spec fn utf8_spec(inner: InnerView) -> Option<Seq<u8>> {
    match inner {
        InnerView::Composed(t) => Some(vstd::utf8::encode_utf8(t)),
        _ => None,
    }
}

fn accent(keysym: u32, combining: char, spacing: Option<char>) -> (r: Option<DeadAccent>)
    ensures
        r == Some(DeadAccent { keysym, combining, spacing }),
{
    Some(DeadAccent { keysym, combining, spacing })
}

/// The accent of a dead keysym.
pub fn dead_accent_from_keysym(keysym: u32) -> (r: Option<DeadAccent>)
    ensures
        r == dead_accent_spec(keysym),
{
    if keysym == DEAD_GRAVE {
        accent(keysym, '\u{0300}', Some('`'))
    } else if keysym == DEAD_ACUTE {
        accent(keysym, '\u{0301}', Some('\u{00B4}'))
    } else if keysym == DEAD_CIRCUMFLEX {
        accent(keysym, '\u{0302}', Some('^'))
    } else if keysym == DEAD_TILDE {
        accent(keysym, '\u{0303}', Some('~'))
    } else if keysym == DEAD_MACRON {
        accent(keysym, '\u{0304}', Some('\u{00AF}'))
    } else if keysym == DEAD_BREVE {
        accent(keysym, '\u{0306}', Some('\u{02D8}'))
    } else if keysym == DEAD_ABOVEDOT {
        accent(keysym, '\u{0307}', Some('\u{02D9}'))
    } else if keysym == DEAD_DIAERESIS {
        accent(keysym, '\u{0308}', Some('\u{00A8}'))
    } else if keysym == DEAD_ABOVERING {
        accent(keysym, '\u{030A}', Some('\u{02DA}'))
    } else if keysym == DEAD_DOUBLEACUTE {
        accent(keysym, '\u{030B}', Some('\u{02DD}'))
    } else if keysym == DEAD_CARON {
        accent(keysym, '\u{030C}', Some('\u{02C7}'))
    } else if keysym == DEAD_CEDILLA {
        accent(keysym, '\u{0327}', Some('\u{00B8}'))
    } else if keysym == DEAD_OGONEK {
        accent(keysym, '\u{0328}', Some('\u{02DB}'))
    } else if keysym == DEAD_BELOWDOT {
        accent(keysym, '\u{0323}', None)
    } else if keysym == DEAD_HOOK {
        accent(keysym, '\u{0309}', None)
    } else if keysym == DEAD_HORN {
        accent(keysym, '\u{031B}', None)
    } else if keysym == DEAD_STROKE {
        accent(keysym, '\u{0335}', None)
    } else {
        None
    }
}

/// The accent that the character of a keysym typed after the Compose key
/// stands for (`'` acute, `` ` `` grave, `^` circumflex, `~` tilde, `"`
/// diaeresis, `-` macron, `,` cedilla, `.` dot below, `o` ring, `u` breve,
/// `v` caron, `;` ogonek, `/` stroke).
pub fn dead_accent_from_char(ch: Option<char>) -> (r: Option<DeadAccent>)
    ensures
        r == dead_accent_for_char(ch),
{
    let c = match ch {
        Some(c) => c,
        None => return None,
    };
    if c == '\'' {
        dead_accent_from_keysym(DEAD_ACUTE)
    } else if c == '`' {
        dead_accent_from_keysym(DEAD_GRAVE)
    } else if c == '^' {
        dead_accent_from_keysym(DEAD_CIRCUMFLEX)
    } else if c == '~' {
        dead_accent_from_keysym(DEAD_TILDE)
    } else if c == '"' {
        dead_accent_from_keysym(DEAD_DIAERESIS)
    } else if c == '-' {
        dead_accent_from_keysym(DEAD_MACRON)
    } else if c == ',' {
        dead_accent_from_keysym(DEAD_CEDILLA)
    } else if c == '.' {
        dead_accent_from_keysym(DEAD_BELOWDOT)
    } else if c == 'o' || c == 'O' {
        dead_accent_from_keysym(DEAD_ABOVERING)
    } else if c == 'u' || c == 'U' {
        dead_accent_from_keysym(DEAD_BREVE)
    } else if c == 'v' || c == 'V' {
        dead_accent_from_keysym(DEAD_CARON)
    } else if c == ';' {
        dead_accent_from_keysym(DEAD_OGONEK)
    } else if c == '/' {
        dead_accent_from_keysym(DEAD_STROKE)
    } else {
        None
    }
}

/// The accent that a keysym typed after the Compose key stands for through
/// its character.
pub fn dead_accent_from_prefix(keysym: u32) -> (r: Option<DeadAccent>)
    ensures
        r == dead_accent_for_char(keysym_char(keysym)),
{
    let ch = key_char(keysym);
    dead_accent_from_char(ch)
}

/// A base character followed by the combining marks of the accents.
pub fn compose_text(base: char, accents: &[DeadAccent]) -> (r: String)
    ensures
        r@ == compose_text_spec(base, accents@),
{
    let mut text = String::new();
    push_char(&mut text, base);
    let mut i: usize = 0;
    while i < accents.len()
        invariant
            i <= accents@.len(),
            text@ == compose_text_spec(base, accents@.take(i as int)),
        decreases accents@.len() - i,
    {
        push_char(&mut text, accents[i].combining);
        assert(compose_text_spec(base, accents@.take(i as int)).push(accents@[i as int].combining)
            =~= compose_text_spec(base, accents@.take(i + 1)));
        i += 1;
    }
    assert(accents@.take(accents@.len() as int) =~= accents@);
    text
}

fn accent_text(a: DeadAccent) -> (r: String)
    ensures
        r@ == accent_alone(a),
{
    let mut text = String::new();
    match a.spacing {
        Some(c) => push_char(&mut text, c),
        None => push_char(&mut text, a.combining),
    }
    text
}

impl Default for ComposeTable {
    /// A table with no locale and no entries.
    fn default() -> (r: ComposeTable)
        ensures
            r@ == Map::<Seq<u32>, Seq<char>>::empty(),
    {
        ComposeTable { locale: None, entries: ComposeMap::new() }
    }
}

impl Default for ComposeState {
    /// A fresh state over an empty table.
    fn default() -> (r: ComposeState)
        ensures
            r@ == (ComposeStateView {
                table: Map::empty(),
                sequence: Seq::empty(),
                inner: InnerView::Nothing,
            }),
    {
        ComposeState { table: ComposeMap::new(), sequence: Vec::new(), state: ComposeInner::Nothing }
    }
}

impl ComposeTable {
    /// A table for `locale` with the given entries.
    pub fn from_entries(locale: Option<String>, entries: ComposeMap) -> (r: ComposeTable)
        ensures
            r@ == entries@,
    {
        ComposeTable { locale, entries }
    }

    /// A fresh compose state over this table.
    pub fn new_state(&self) -> (r: ComposeState)
        ensures
            r@ == (ComposeStateView {
                table: self@,
                sequence: Seq::empty(),
                inner: InnerView::Nothing,
            }),
    {
        ComposeState {
            table: self.entries.duplicate(),
            sequence: Vec::new(),
            state: ComposeInner::Nothing,
        }
    }
}

impl ComposeState {
    /// Feeds a keysym into the state machine.
    ///
    /// The transitions follow the shape of libxkbcommon's compose state
    /// machine, but composition is algorithmic: by dead keys, and by the
    /// Compose key followed by an accent character, not from the table.
    pub fn feed(&mut self, keysym: u32) -> (r: ComposeFeedResult)
        ensures
            (final(self)@, r) == feed_spec(old(self)@, keysym, keysym_char(keysym)),
    {
        let ch = key_char(keysym);
        self.feed_with_char(keysym, ch)
    }

    /// Feeds keysym `keysym`, whose character is `key_char`, into the state
    /// machine.
    pub fn feed_with_char(&mut self, keysym: u32, key_char: Option<char>) -> (r: ComposeFeedResult)
        ensures
            (final(self)@, r) == feed_spec(old(self)@, keysym, key_char),
    {
        if is_modifier_key(keysym) {
            return ComposeFeedResult::Ignored;
        }
        let finished = match self.state {
            ComposeInner::Composed(_) | ComposeInner::Cancelled => true,
            _ => false,
        };
        if finished {
            self.reset();
        }
        self.feed_algorithmic(keysym, key_char)
    }

    /// Back to the start: no sequence, nothing composed.
    pub fn reset(&mut self)
        ensures
            final(self)@ == reset_spec(old(self)@),
    {
        self.sequence.clear();
        self.state = ComposeInner::Nothing;
    }

    /// Where the state machine is.
    pub fn status(&self) -> (r: ComposeStatus)
        ensures
            r == status_spec(self@.inner),
    {
        match &self.state {
            ComposeInner::Nothing => ComposeStatus::Nothing,
            ComposeInner::MultiKey | ComposeInner::Dead(_) | ComposeInner::TableComposing => {
                ComposeStatus::Composing
            },
            ComposeInner::Composed(_) => ComposeStatus::Composed,
            ComposeInner::Cancelled => ComposeStatus::Cancelled,
        }
    }

    /// The composed text as UTF-8, once a composition has finished with one.
    pub fn get_utf8(&self) -> (r: Option<Vec<u8>>)
        ensures
            r is Some == utf8_spec(self@.inner) is Some,
            r matches Some(bytes) ==> utf8_spec(self@.inner) == Some(bytes@),
    {
        match &self.state {
            ComposeInner::Composed(text) => {
                let bytes = text.as_str().as_bytes();
                Some(vstd::slice::slice_to_vec(bytes))
            },
            _ => None,
        }
    }

    fn feed_algorithmic(&mut self, keysym: u32, key_char: Option<char>) -> (r: ComposeFeedResult)
        requires
            !is_finished(old(self)@.inner),
        ensures
            final(self)@ == (ComposeStateView {
                inner: algorithmic_step(old(self)@.inner, keysym, key_char),
                ..old(self)@
            }),
            r == ComposeFeedResult::Accepted,
    {
        let ghost before = self@;
        let mut state = ComposeInner::Nothing;
        std::mem::swap(&mut state, &mut self.state);
        assert(state@ == before.inner);
        match state {
            ComposeInner::Nothing => {
                if keysym == MULTI_KEY {
                    self.state = ComposeInner::MultiKey;
                } else if let Some(accent) = dead_accent_from_keysym(keysym) {
                    let single = vec![accent];
                    assert(single@ =~= seq![accent]);
                    self.state = ComposeInner::Dead(single);
                }
            },
            ComposeInner::MultiKey => {
                let found = match dead_accent_from_keysym(keysym) {
                    Some(a) => Some(a),
                    None => dead_accent_from_char(key_char),
                };
                if let Some(accent) = found {
                    let single = vec![accent];
                    assert(single@ =~= seq![accent]);
                    self.state = ComposeInner::Dead(single);
                } else {
                    self.state = ComposeInner::Cancelled;
                }
            },
            ComposeInner::Dead(accents) => {
                let mut accents = accents;
                if let Some(accent) = dead_accent_from_keysym(keysym) {
                    if accents.len() == 1 && accents[0] == accent {
                        self.state = ComposeInner::Composed(accent_text(accent));
                    } else {
                        accents.push(accent);
                        self.state = ComposeInner::Dead(accents);
                    }
                } else if let Some(base) = key_char {
                    if accents.len() == 1 && base == ' ' {
                        let accent = accents[0];
                        self.state = ComposeInner::Composed(accent_text(accent));
                    } else {
                        self.state = ComposeInner::Composed(compose_text(base, &accents));
                    }
                } else {
                    self.state = ComposeInner::Cancelled;
                }
            },
            ComposeInner::TableComposing => {
                self.state = ComposeInner::Cancelled;
            },
            ComposeInner::Composed(_) | ComposeInner::Cancelled => {},
        }
        assert(self.state@ == algorithmic_step(before.inner, keysym, key_char));
        assert(self@ == (ComposeStateView {
            inner: algorithmic_step(before.inner, keysym, key_char),
            ..before
        }));
        ComposeFeedResult::Accepted
    }
}


/// The state after feeding `keys` one after the other, each with the
/// character that `key_char` gives it.
pub open spec fn feed_keys(s: ComposeStateView, keys: Seq<u32>) -> ComposeStateView
    decreases keys.len(),
{
    if keys.len() == 0 {
        s
    } else {
        let prev = feed_keys(s, keys.drop_last());
        feed_spec(prev, keys.last(), keysym_char(keys.last())).0
    }
}

/// A keysym is ignored exactly when it is a modifier, and an ignored keysym
/// leaves the state as it was.
pub proof fn lemma_feed_ignores_exactly_modifiers(s: ComposeStateView, k: u32, ch: Option<char>)
    ensures
        (feed_spec(s, k, ch).1 == ComposeFeedResult::Ignored) <==> is_modifier_keysym(k),
        feed_spec(s, k, ch).1 == ComposeFeedResult::Ignored ==> feed_spec(s, k, ch).0 == s,
{
}

/// Feeding into a finished state (composed or cancelled) is feeding into
/// the reset state.
pub proof fn lemma_finished_state_feeds_as_reset(s: ComposeStateView, k: u32, ch: Option<char>)
    requires
        is_finished(s.inner),
        !is_modifier_keysym(k),
    ensures
        feed_spec(s, k, ch) == feed_spec(reset_spec(s), k, ch),
{
}

/// There are UTF-8 bytes to read exactly when the status is `Composed`.
pub proof fn lemma_utf8_iff_composed(s: ComposeStateView)
    ensures
        (utf8_spec(s.inner) is Some) <==> status_spec(s.inner) == ComposeStatus::Composed,
{
}

/// After a reset the status is `Nothing`, there is no text, and the table is
/// kept.
pub proof fn lemma_reset_clears(s: ComposeStateView)
    ensures
        status_spec(reset_spec(s).inner) == ComposeStatus::Nothing,
        utf8_spec(reset_spec(s).inner) is None,
        reset_spec(s).table == s.table,
        reset_spec(s).sequence.len() == 0,
{
}

/// Typing a dead key and then a key that is no dead key and stands for a
/// character other than space composes that character followed by the dead
/// key's combining mark.
pub proof fn lemma_dead_key_then_base(
    s: ComposeStateView,
    dead: u32,
    dead_ch: Option<char>,
    base: u32,
    c: char,
)
    requires
        s.inner == InnerView::Nothing,
        dead_accent_spec(dead) is Some,
        !is_modifier_keysym(base),
        dead_accent_spec(base) is None,
        c != ' ',
    ensures
        ({
            let s1 = feed_spec(s, dead, dead_ch).0;
            let s2 = feed_spec(s1, base, Some(c)).0;
            s2.inner == InnerView::Composed(seq![c, dead_accent_spec(dead)->0.combining])
        }),
{
    let a = dead_accent_spec(dead)->0;
    assert(!is_modifier_keysym(dead));
    assert(dead != MULTI_KEY);
    assert(compose_text_spec(c, seq![a]) =~= seq![c, a.combining]);
}

/// Typing the same dead key twice gives the accent on its own.
pub proof fn lemma_dead_key_twice(s: ComposeStateView, dead: u32, ch1: Option<char>, ch2: Option<char>)
    requires
        s.inner == InnerView::Nothing,
        dead_accent_spec(dead) is Some,
    ensures
        ({
            let s1 = feed_spec(s, dead, ch1).0;
            let s2 = feed_spec(s1, dead, ch2).0;
            s2.inner == InnerView::Composed(accent_alone(dead_accent_spec(dead)->0))
        }),
{
    assert(!is_modifier_keysym(dead));
    assert(dead != MULTI_KEY);
}

/// Typing a dead key and then a key that is no dead key and stands for a
/// space gives the accent on its own.
pub proof fn lemma_dead_key_then_space(s: ComposeStateView, dead: u32, dead_ch: Option<char>, space: u32)
    requires
        s.inner == InnerView::Nothing,
        dead_accent_spec(dead) is Some,
        !is_modifier_keysym(space),
        dead_accent_spec(space) is None,
    ensures
        ({
            let s1 = feed_spec(s, dead, dead_ch).0;
            let s2 = feed_spec(s1, space, Some(' ')).0;
            s2.inner == InnerView::Composed(accent_alone(dead_accent_spec(dead)->0))
        }),
{
    assert(!is_modifier_keysym(dead));
    assert(dead != MULTI_KEY);
}

proof fn lemma_two_keys(s: ComposeStateView, k1: u32, k2: u32)
    ensures
        feed_keys(s, seq![k1, k2]) == feed_spec(feed_spec(s, k1, keysym_char(k1)).0, k2, keysym_char(k2)).0,
{
    let one = seq![k1];
    let two = seq![k1, k2];
    assert(one.drop_last() =~= Seq::<u32>::empty());
    assert(feed_keys(s, Seq::<u32>::empty()) == s);
    assert(one.last() == k1);
    assert(feed_keys(s, one) == feed_spec(s, k1, keysym_char(k1)).0);
    assert(two.drop_last() =~= one);
    assert(two.last() == k2);
}

proof fn lemma_three_keys(s: ComposeStateView, k1: u32, k2: u32, k3: u32)
    ensures
        feed_keys(s, seq![k1, k2, k3]) == feed_spec(
            feed_spec(feed_spec(s, k1, keysym_char(k1)).0, k2, keysym_char(k2)).0,
            k3,
            keysym_char(k3),
        ).0,
{
    let three = seq![k1, k2, k3];
    assert(three.drop_last() =~= seq![k1, k2]);
    assert(three.last() == k3);
    lemma_two_keys(s, k1, k2);
}

/// Each dead key adds the Unicode combining mark named after it: a dead key
/// followed by a key that stands for a character `c` (no dead key, no
/// modifier, no space) composes `c` and then grave U+0300, acute U+0301,
/// circumflex U+0302, tilde U+0303, macron U+0304, breve U+0306, dot above
/// U+0307, diaeresis U+0308, ring above U+030A, double acute U+030B, caron
/// U+030C, cedilla U+0327, ogonek U+0328, dot below U+0323, hook above
/// U+0309, horn U+031B, or short stroke U+0335.
pub proof fn lemma_dead_key_marks(s: ComposeStateView, base: u32, c: char)
    requires
        s.inner == InnerView::Nothing,
        !is_modifier_keysym(base),
        dead_accent_spec(base) is None,
        keysym_char(base) == Some(c),
        c != ' ',
    ensures
        feed_keys(s, seq![DEAD_GRAVE, base]).inner == InnerView::Composed(seq![c, '\u{0300}']),
        feed_keys(s, seq![DEAD_ACUTE, base]).inner == InnerView::Composed(seq![c, '\u{0301}']),
        feed_keys(s, seq![DEAD_CIRCUMFLEX, base]).inner == InnerView::Composed(seq![c, '\u{0302}']),
        feed_keys(s, seq![DEAD_TILDE, base]).inner == InnerView::Composed(seq![c, '\u{0303}']),
        feed_keys(s, seq![DEAD_MACRON, base]).inner == InnerView::Composed(seq![c, '\u{0304}']),
        feed_keys(s, seq![DEAD_BREVE, base]).inner == InnerView::Composed(seq![c, '\u{0306}']),
        feed_keys(s, seq![DEAD_ABOVEDOT, base]).inner == InnerView::Composed(seq![c, '\u{0307}']),
        feed_keys(s, seq![DEAD_DIAERESIS, base]).inner == InnerView::Composed(seq![c, '\u{0308}']),
        feed_keys(s, seq![DEAD_ABOVERING, base]).inner == InnerView::Composed(seq![c, '\u{030A}']),
        feed_keys(s, seq![DEAD_DOUBLEACUTE, base]).inner == InnerView::Composed(seq![c, '\u{030B}']),
        feed_keys(s, seq![DEAD_CARON, base]).inner == InnerView::Composed(seq![c, '\u{030C}']),
        feed_keys(s, seq![DEAD_CEDILLA, base]).inner == InnerView::Composed(seq![c, '\u{0327}']),
        feed_keys(s, seq![DEAD_OGONEK, base]).inner == InnerView::Composed(seq![c, '\u{0328}']),
        feed_keys(s, seq![DEAD_BELOWDOT, base]).inner == InnerView::Composed(seq![c, '\u{0323}']),
        feed_keys(s, seq![DEAD_HOOK, base]).inner == InnerView::Composed(seq![c, '\u{0309}']),
        feed_keys(s, seq![DEAD_HORN, base]).inner == InnerView::Composed(seq![c, '\u{031B}']),
        feed_keys(s, seq![DEAD_STROKE, base]).inner == InnerView::Composed(seq![c, '\u{0335}']),
{
    lemma_two_keys(s, DEAD_GRAVE, base);
    lemma_dead_key_then_base(s, DEAD_GRAVE, keysym_char(DEAD_GRAVE), base, c);
    lemma_two_keys(s, DEAD_ACUTE, base);
    lemma_dead_key_then_base(s, DEAD_ACUTE, keysym_char(DEAD_ACUTE), base, c);
    lemma_two_keys(s, DEAD_CIRCUMFLEX, base);
    lemma_dead_key_then_base(s, DEAD_CIRCUMFLEX, keysym_char(DEAD_CIRCUMFLEX), base, c);
    lemma_two_keys(s, DEAD_TILDE, base);
    lemma_dead_key_then_base(s, DEAD_TILDE, keysym_char(DEAD_TILDE), base, c);
    lemma_two_keys(s, DEAD_MACRON, base);
    lemma_dead_key_then_base(s, DEAD_MACRON, keysym_char(DEAD_MACRON), base, c);
    lemma_two_keys(s, DEAD_BREVE, base);
    lemma_dead_key_then_base(s, DEAD_BREVE, keysym_char(DEAD_BREVE), base, c);
    lemma_two_keys(s, DEAD_ABOVEDOT, base);
    lemma_dead_key_then_base(s, DEAD_ABOVEDOT, keysym_char(DEAD_ABOVEDOT), base, c);
    lemma_two_keys(s, DEAD_DIAERESIS, base);
    lemma_dead_key_then_base(s, DEAD_DIAERESIS, keysym_char(DEAD_DIAERESIS), base, c);
    lemma_two_keys(s, DEAD_ABOVERING, base);
    lemma_dead_key_then_base(s, DEAD_ABOVERING, keysym_char(DEAD_ABOVERING), base, c);
    lemma_two_keys(s, DEAD_DOUBLEACUTE, base);
    lemma_dead_key_then_base(s, DEAD_DOUBLEACUTE, keysym_char(DEAD_DOUBLEACUTE), base, c);
    lemma_two_keys(s, DEAD_CARON, base);
    lemma_dead_key_then_base(s, DEAD_CARON, keysym_char(DEAD_CARON), base, c);
    lemma_two_keys(s, DEAD_CEDILLA, base);
    lemma_dead_key_then_base(s, DEAD_CEDILLA, keysym_char(DEAD_CEDILLA), base, c);
    lemma_two_keys(s, DEAD_OGONEK, base);
    lemma_dead_key_then_base(s, DEAD_OGONEK, keysym_char(DEAD_OGONEK), base, c);
    lemma_two_keys(s, DEAD_BELOWDOT, base);
    lemma_dead_key_then_base(s, DEAD_BELOWDOT, keysym_char(DEAD_BELOWDOT), base, c);
    lemma_two_keys(s, DEAD_HOOK, base);
    lemma_dead_key_then_base(s, DEAD_HOOK, keysym_char(DEAD_HOOK), base, c);
    lemma_two_keys(s, DEAD_HORN, base);
    lemma_dead_key_then_base(s, DEAD_HORN, keysym_char(DEAD_HORN), base, c);
    lemma_two_keys(s, DEAD_STROKE, base);
    lemma_dead_key_then_base(s, DEAD_STROKE, keysym_char(DEAD_STROKE), base, c);
}

/// A dead key typed twice gives its spacing accent (the combining mark
/// itself for the dead keys that have none): `, U+00B4, ^, ~, U+00AF,
/// U+02D8, U+02D9, U+00A8, U+02DA, U+02DD, U+02C7, U+00B8, U+02DB.
pub proof fn lemma_dead_key_spacing(s: ComposeStateView)
    requires
        s.inner == InnerView::Nothing,
    ensures
        feed_keys(s, seq![DEAD_GRAVE, DEAD_GRAVE]).inner == InnerView::Composed(seq!['`']),
        feed_keys(s, seq![DEAD_ACUTE, DEAD_ACUTE]).inner == InnerView::Composed(seq!['\u{00B4}']),
        feed_keys(s, seq![DEAD_CIRCUMFLEX, DEAD_CIRCUMFLEX]).inner == InnerView::Composed(seq!['^']),
        feed_keys(s, seq![DEAD_TILDE, DEAD_TILDE]).inner == InnerView::Composed(seq!['~']),
        feed_keys(s, seq![DEAD_MACRON, DEAD_MACRON]).inner == InnerView::Composed(seq!['\u{00AF}']),
        feed_keys(s, seq![DEAD_BREVE, DEAD_BREVE]).inner == InnerView::Composed(seq!['\u{02D8}']),
        feed_keys(s, seq![DEAD_ABOVEDOT, DEAD_ABOVEDOT]).inner == InnerView::Composed(seq!['\u{02D9}']),
        feed_keys(s, seq![DEAD_DIAERESIS, DEAD_DIAERESIS]).inner == InnerView::Composed(seq!['\u{00A8}']),
        feed_keys(s, seq![DEAD_ABOVERING, DEAD_ABOVERING]).inner == InnerView::Composed(seq!['\u{02DA}']),
        feed_keys(s, seq![DEAD_DOUBLEACUTE, DEAD_DOUBLEACUTE]).inner == InnerView::Composed(seq!['\u{02DD}']),
        feed_keys(s, seq![DEAD_CARON, DEAD_CARON]).inner == InnerView::Composed(seq!['\u{02C7}']),
        feed_keys(s, seq![DEAD_CEDILLA, DEAD_CEDILLA]).inner == InnerView::Composed(seq!['\u{00B8}']),
        feed_keys(s, seq![DEAD_OGONEK, DEAD_OGONEK]).inner == InnerView::Composed(seq!['\u{02DB}']),
        feed_keys(s, seq![DEAD_BELOWDOT, DEAD_BELOWDOT]).inner == InnerView::Composed(seq!['\u{0323}']),
        feed_keys(s, seq![DEAD_HOOK, DEAD_HOOK]).inner == InnerView::Composed(seq!['\u{0309}']),
        feed_keys(s, seq![DEAD_HORN, DEAD_HORN]).inner == InnerView::Composed(seq!['\u{031B}']),
        feed_keys(s, seq![DEAD_STROKE, DEAD_STROKE]).inner == InnerView::Composed(seq!['\u{0335}']),
{
    lemma_two_keys(s, DEAD_GRAVE, DEAD_GRAVE);
    lemma_dead_key_twice(s, DEAD_GRAVE, keysym_char(DEAD_GRAVE), keysym_char(DEAD_GRAVE));
    lemma_two_keys(s, DEAD_ACUTE, DEAD_ACUTE);
    lemma_dead_key_twice(s, DEAD_ACUTE, keysym_char(DEAD_ACUTE), keysym_char(DEAD_ACUTE));
    lemma_two_keys(s, DEAD_CIRCUMFLEX, DEAD_CIRCUMFLEX);
    lemma_dead_key_twice(s, DEAD_CIRCUMFLEX, keysym_char(DEAD_CIRCUMFLEX), keysym_char(DEAD_CIRCUMFLEX));
    lemma_two_keys(s, DEAD_TILDE, DEAD_TILDE);
    lemma_dead_key_twice(s, DEAD_TILDE, keysym_char(DEAD_TILDE), keysym_char(DEAD_TILDE));
    lemma_two_keys(s, DEAD_MACRON, DEAD_MACRON);
    lemma_dead_key_twice(s, DEAD_MACRON, keysym_char(DEAD_MACRON), keysym_char(DEAD_MACRON));
    lemma_two_keys(s, DEAD_BREVE, DEAD_BREVE);
    lemma_dead_key_twice(s, DEAD_BREVE, keysym_char(DEAD_BREVE), keysym_char(DEAD_BREVE));
    lemma_two_keys(s, DEAD_ABOVEDOT, DEAD_ABOVEDOT);
    lemma_dead_key_twice(s, DEAD_ABOVEDOT, keysym_char(DEAD_ABOVEDOT), keysym_char(DEAD_ABOVEDOT));
    lemma_two_keys(s, DEAD_DIAERESIS, DEAD_DIAERESIS);
    lemma_dead_key_twice(s, DEAD_DIAERESIS, keysym_char(DEAD_DIAERESIS), keysym_char(DEAD_DIAERESIS));
    lemma_two_keys(s, DEAD_ABOVERING, DEAD_ABOVERING);
    lemma_dead_key_twice(s, DEAD_ABOVERING, keysym_char(DEAD_ABOVERING), keysym_char(DEAD_ABOVERING));
    lemma_two_keys(s, DEAD_DOUBLEACUTE, DEAD_DOUBLEACUTE);
    lemma_dead_key_twice(s, DEAD_DOUBLEACUTE, keysym_char(DEAD_DOUBLEACUTE), keysym_char(DEAD_DOUBLEACUTE));
    lemma_two_keys(s, DEAD_CARON, DEAD_CARON);
    lemma_dead_key_twice(s, DEAD_CARON, keysym_char(DEAD_CARON), keysym_char(DEAD_CARON));
    lemma_two_keys(s, DEAD_CEDILLA, DEAD_CEDILLA);
    lemma_dead_key_twice(s, DEAD_CEDILLA, keysym_char(DEAD_CEDILLA), keysym_char(DEAD_CEDILLA));
    lemma_two_keys(s, DEAD_OGONEK, DEAD_OGONEK);
    lemma_dead_key_twice(s, DEAD_OGONEK, keysym_char(DEAD_OGONEK), keysym_char(DEAD_OGONEK));
    lemma_two_keys(s, DEAD_BELOWDOT, DEAD_BELOWDOT);
    lemma_dead_key_twice(s, DEAD_BELOWDOT, keysym_char(DEAD_BELOWDOT), keysym_char(DEAD_BELOWDOT));
    lemma_two_keys(s, DEAD_HOOK, DEAD_HOOK);
    lemma_dead_key_twice(s, DEAD_HOOK, keysym_char(DEAD_HOOK), keysym_char(DEAD_HOOK));
    lemma_two_keys(s, DEAD_HORN, DEAD_HORN);
    lemma_dead_key_twice(s, DEAD_HORN, keysym_char(DEAD_HORN), keysym_char(DEAD_HORN));
    lemma_two_keys(s, DEAD_STROKE, DEAD_STROKE);
    lemma_dead_key_twice(s, DEAD_STROKE, keysym_char(DEAD_STROKE), keysym_char(DEAD_STROKE));
}

/// After the Compose key, a key whose character is one of the accent
/// characters stands for a fixed dead key, and a following key that stands
/// for a character `c` (no dead key, no modifier, no space) composes `c`
/// with that dead key's mark: `'` acute, `` ` `` grave, `^` circumflex, `~`
/// tilde, `"` diaeresis, `-` macron, `,` cedilla, `.` dot below, `o`/`O`
/// ring above, `u`/`U` breve, `v`/`V` caron, `;` ogonek, `/` stroke. Any
/// other character after the Compose key cancels.
pub proof fn lemma_compose_key_accent_chars(s: ComposeStateView, kc: u32, ch: char, base: u32, c: char)
    requires
        s.inner == InnerView::Nothing,
        !is_modifier_keysym(kc),
        dead_accent_spec(kc) is None,
        keysym_char(kc) == Some(ch),
        !is_modifier_keysym(base),
        dead_accent_spec(base) is None,
        keysym_char(base) == Some(c),
        c != ' ',
    ensures
        ch == '\'' ==> feed_keys(s, seq![MULTI_KEY, kc, base]).inner == InnerView::Composed(seq![c, '\u{0301}']),
        ch == '`' ==> feed_keys(s, seq![MULTI_KEY, kc, base]).inner == InnerView::Composed(seq![c, '\u{0300}']),
        ch == '^' ==> feed_keys(s, seq![MULTI_KEY, kc, base]).inner == InnerView::Composed(seq![c, '\u{0302}']),
        ch == '~' ==> feed_keys(s, seq![MULTI_KEY, kc, base]).inner == InnerView::Composed(seq![c, '\u{0303}']),
        ch == '"' ==> feed_keys(s, seq![MULTI_KEY, kc, base]).inner == InnerView::Composed(seq![c, '\u{0308}']),
        ch == '-' ==> feed_keys(s, seq![MULTI_KEY, kc, base]).inner == InnerView::Composed(seq![c, '\u{0304}']),
        ch == ',' ==> feed_keys(s, seq![MULTI_KEY, kc, base]).inner == InnerView::Composed(seq![c, '\u{0327}']),
        ch == '.' ==> feed_keys(s, seq![MULTI_KEY, kc, base]).inner == InnerView::Composed(seq![c, '\u{0323}']),
        ch == 'o' ==> feed_keys(s, seq![MULTI_KEY, kc, base]).inner == InnerView::Composed(seq![c, '\u{030A}']),
        ch == 'O' ==> feed_keys(s, seq![MULTI_KEY, kc, base]).inner == InnerView::Composed(seq![c, '\u{030A}']),
        ch == 'u' ==> feed_keys(s, seq![MULTI_KEY, kc, base]).inner == InnerView::Composed(seq![c, '\u{0306}']),
        ch == 'U' ==> feed_keys(s, seq![MULTI_KEY, kc, base]).inner == InnerView::Composed(seq![c, '\u{0306}']),
        ch == 'v' ==> feed_keys(s, seq![MULTI_KEY, kc, base]).inner == InnerView::Composed(seq![c, '\u{030C}']),
        ch == 'V' ==> feed_keys(s, seq![MULTI_KEY, kc, base]).inner == InnerView::Composed(seq![c, '\u{030C}']),
        ch == ';' ==> feed_keys(s, seq![MULTI_KEY, kc, base]).inner == InnerView::Composed(seq![c, '\u{0328}']),
        ch == '/' ==> feed_keys(s, seq![MULTI_KEY, kc, base]).inner == InnerView::Composed(seq![c, '\u{0335}']),
        ch != '\'' && ch != '`' && ch != '^' && ch != '~' && ch != '"' && ch != '-' && ch != ',' && ch != '.' && ch != 'o' && ch != 'O' && ch != 'u' && ch != 'U' && ch != 'v' && ch != 'V' && ch != ';' && ch != '/' ==> feed_keys(s, seq![MULTI_KEY, kc]).inner == InnerView::Cancelled,
{
    lemma_three_keys(s, MULTI_KEY, kc, base);
    lemma_two_keys(s, MULTI_KEY, kc);
    let s1 = feed_spec(s, MULTI_KEY, keysym_char(MULTI_KEY)).0;
    assert(!is_modifier_keysym(MULTI_KEY));
    assert(s1.inner == InnerView::MultiKey);
    let s2 = feed_spec(s1, kc, Some(ch)).0;
    match dead_keysym_for_char(ch) {
        Some(k) => {
            let a = dead_accent_spec(k)->0;
            assert(s2.inner == InnerView::Dead(seq![a]));
            assert(compose_text_spec(c, seq![a]) =~= seq![c, a.combining]);
        },
        None => {},
    }
}

/// The status tells where the state machine is: `Nothing` before any
/// composition, `Composing` after the Compose key or dead keys, `Composed`
/// once there is text, `Cancelled` after a failed sequence.
pub proof fn lemma_status_by_state(inner: InnerView)
    ensures
        (status_spec(inner) == ComposeStatus::Nothing) <==> inner is Nothing,
        (status_spec(inner) == ComposeStatus::Composed) <==> inner is Composed,
        (status_spec(inner) == ComposeStatus::Cancelled) <==> inner is Cancelled,
        (status_spec(inner) == ComposeStatus::Composing) <==> (inner is MultiKey || inner is Dead
            || inner is TableComposing),
{
}

/// The table a state was made from decides nothing: two states at the same
/// point of a composition answer a keysym alike, and are again at the same
/// point afterwards, whatever their tables.
pub proof fn lemma_feed_ignores_table(s1: ComposeStateView, s2: ComposeStateView, k: u32, ch: Option<char>)
    requires
        s1.inner == s2.inner,
    ensures
        feed_spec(s1, k, ch).1 == feed_spec(s2, k, ch).1,
        feed_spec(s1, k, ch).0.inner == feed_spec(s2, k, ch).0.inner,
{
}

/// Feeding the same keysyms to states that start at the same point (a state
/// made from any table, and a default state, say) leaves them at the same
/// point after every step: equal status and equal composed text.
pub proof fn lemma_feed_keys_ignore_table(s1: ComposeStateView, s2: ComposeStateView, keys: Seq<u32>)
    requires
        s1.inner == s2.inner,
    ensures
        feed_keys(s1, keys).inner == feed_keys(s2, keys).inner,
        status_spec(feed_keys(s1, keys).inner) == status_spec(feed_keys(s2, keys).inner),
        utf8_spec(feed_keys(s1, keys).inner) == utf8_spec(feed_keys(s2, keys).inner),
    decreases keys.len(),
{
    if keys.len() > 0 {
        lemma_feed_keys_ignore_table(s1, s2, keys.drop_last());
        lemma_feed_ignores_table(
            feed_keys(s1, keys.drop_last()),
            feed_keys(s2, keys.drop_last()),
            keys.last(),
            keysym_char(keys.last()),
        );
    }
}

} // verus!
