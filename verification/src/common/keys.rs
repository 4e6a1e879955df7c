//! Key chords: parsing them from configuration text and resolving a key
//! press to the action bound to it.

use crate::text::{
    ascii_graphic, is_ascii_graphic, is_text, lowercase_of, lowered_chars, split_char, split_on,
    split_whitespace, to_chars, views, words,
};
use vstd::prelude::*;

verus! {

/// The Shift modifier bit.
pub const SHIFT_MASK: u32 = 0x1;

/// The Control modifier bit.
pub const CONTROL_MASK: u32 = 0x4;

/// The Alt modifier bit.
pub const ALT_MASK: u32 = 0x8;

/// The Super modifier bit.
pub const SUPER_MASK: u32 = 0x400_0000;

/// The modifier bits that take part in matching: Control, Shift, Alt and
/// Super. Every other bit of a key press (CapsLock, NumLock) is ignored.
pub const RELEVANT_MASK: u32 = 0x400_000d;

/// The space bar.
pub const KEY_SPACE: u32 = 0x20;

/// The letter `u`.
pub const KEY_U: u32 = 0x75;

/// The BackSpace key.
pub const KEY_BACKSPACE: u32 = 0xff08;

/// The Tab key.
pub const KEY_TAB: u32 = 0xff09;

/// The Return key.
pub const KEY_RETURN: u32 = 0xff0d;

/// The Escape key.
pub const KEY_ESCAPE: u32 = 0xff1b;

/// The Home key.
pub const KEY_HOME: u32 = 0xff50;

/// The left arrow.
pub const KEY_LEFT: u32 = 0xff51;

/// The up arrow.
pub const KEY_UP: u32 = 0xff52;

/// The right arrow.
pub const KEY_RIGHT: u32 = 0xff53;

/// The down arrow.
pub const KEY_DOWN: u32 = 0xff54;

/// The Page Up key.
pub const KEY_PAGE_UP: u32 = 0xff55;

/// The Page Down key.
pub const KEY_PAGE_DOWN: u32 = 0xff56;

/// The End key.
pub const KEY_END: u32 = 0xff57;

/// The Enter key of the keypad.
pub const KEY_KP_ENTER: u32 = 0xff8d;

/// The Delete key.
pub const KEY_DELETE: u32 = 0xffff;

/// A logical command that a key press can stand for.
#[derive(Clone, Copy, Debug, PartialEq, Eq, Hash, Structural)]
pub enum Action {
    Select,
    Delete,
    ClearSearch,
    Close,
    Next,
    Prev,
    PageDown,
    PageUp,
    First,
    Last,
}

/// The two modes of modal input.
#[derive(Clone, Copy, Debug, PartialEq, Eq, Structural)]
pub enum VimMode {
    Normal,
    Insert,
}

impl Default for VimMode {
    fn default() -> (r: Self)
        ensures
            r == VimMode::Normal,
    {
        VimMode::Normal
    }
}

/// A key chord: a key value and the exact set of modifier bits held with
/// it. Key values are those of the windowing toolkit: a printable Latin-1
/// character is its own code, named keys have the `KEY_` constants.
#[derive(Clone, Copy, Debug, PartialEq, Eq, Structural)]
pub struct KeyCombo {
    pub key: u32,
    pub mods: u32,
}

/// The action that a configuration key names.
pub open spec fn action_of(s: Seq<char>) -> Option<Action> {
    if s == "select"@ {
        Some(Action::Select)
    } else if s == "delete"@ {
        Some(Action::Delete)
    } else if s == "clear_search"@ {
        Some(Action::ClearSearch)
    } else if s == "close"@ {
        Some(Action::Close)
    } else if s == "next"@ {
        Some(Action::Next)
    } else if s == "prev"@ {
        Some(Action::Prev)
    } else if s == "page_down"@ {
        Some(Action::PageDown)
    } else if s == "page_up"@ {
        Some(Action::PageUp)
    } else if s == "first"@ {
        Some(Action::First)
    } else if s == "last"@ {
        Some(Action::Last)
    } else {
        None
    }
}

/// The action that `s` names, if it names one. Names are matched as they
/// stand, in lower case.
pub fn parse_action(s: &str) -> (r: Option<Action>)
    ensures
        r == action_of(s@),
{
    let c = to_chars(s);
    if is_text(&c, "select") {
        Some(Action::Select)
    } else if is_text(&c, "delete") {
        Some(Action::Delete)
    } else if is_text(&c, "clear_search") {
        Some(Action::ClearSearch)
    } else if is_text(&c, "close") {
        Some(Action::Close)
    } else if is_text(&c, "next") {
        Some(Action::Next)
    } else if is_text(&c, "prev") {
        Some(Action::Prev)
    } else if is_text(&c, "page_down") {
        Some(Action::PageDown)
    } else if is_text(&c, "page_up") {
        Some(Action::PageUp)
    } else if is_text(&c, "first") {
        Some(Action::First)
    } else if is_text(&c, "last") {
        Some(Action::Last)
    } else {
        None
    }
}

/// The modifier bit that a lower-case modifier name stands for, or 0 for a
/// name that is none.
pub open spec fn modifier_bit(name: Seq<char>) -> u32 {
    if name == "ctrl"@ || name == "control"@ {
        CONTROL_MASK
    } else if name == "shift"@ {
        SHIFT_MASK
    } else if name == "alt"@ || name == "mod1"@ {
        ALT_MASK
    } else if name == "super"@ || name == "mod4"@ {
        SUPER_MASK
    } else {
        0
    }
}

/// The key value of a lower-case named key.
pub open spec fn named_key(name: Seq<char>) -> Option<u32> {
    if name == "return"@ || name == "enter"@ {
        Some(KEY_RETURN)
    } else if name == "escape"@ || name == "esc"@ {
        Some(KEY_ESCAPE)
    } else if name == "tab"@ {
        Some(KEY_TAB)
    } else if name == "delete"@ || name == "del"@ {
        Some(KEY_DELETE)
    } else if name == "backspace"@ {
        Some(KEY_BACKSPACE)
    } else if name == "up"@ {
        Some(KEY_UP)
    } else if name == "down"@ {
        Some(KEY_DOWN)
    } else if name == "left"@ {
        Some(KEY_LEFT)
    } else if name == "right"@ {
        Some(KEY_RIGHT)
    } else if name == "home"@ {
        Some(KEY_HOME)
    } else if name == "end"@ {
        Some(KEY_END)
    } else if name == "page_up"@ || name == "pageup"@ || name == "pgup"@ {
        Some(KEY_PAGE_UP)
    } else if name == "page_down"@ || name == "pagedown"@ || name == "pgdn"@ {
        Some(KEY_PAGE_DOWN)
    } else if name == "space"@ {
        Some(KEY_SPACE)
    } else {
        None
    }
}

/// The key value of a lower-case key token: a named key, or a single
/// printable ASCII character, which is its own key value.
pub open spec fn key_of(name: Seq<char>) -> Option<u32> {
    match named_key(name) {
        Some(k) => Some(k),
        None => if name.len() == 1 && is_ascii_graphic(name[0]) {
            Some(name[0] as u32)
        } else {
            None
        },
    }
}

/// The modifier bits that the modifier tokens `parts` name together. Each
/// token is folded to lower case first; a token that names no modifier adds
/// nothing.
pub open spec fn modifiers_of(parts: Seq<Seq<char>>) -> u32
    decreases parts.len(),
{
    if parts.len() == 0 {
        0
    } else {
        modifiers_of(parts.drop_last()) | modifier_bit(lowercase_of(parts.last()))
    }
}

/// The chord that one token of the form `mod+mod+...+key` stands for, or
/// `None` where its key is unknown.
pub open spec fn combo_of(token: Seq<char>) -> Option<KeyCombo> {
    let parts = split_char(token, '+');
    match key_of(lowercase_of(parts.last())) {
        Some(key) => Some(KeyCombo { key, mods: modifiers_of(parts.drop_last()) }),
        None => None,
    }
}

/// The chords of the well-formed tokens among `tokens`, in order.
pub open spec fn combos_of(tokens: Seq<Seq<char>>) -> Seq<KeyCombo>
    decreases tokens.len(),
{
    if tokens.len() == 0 {
        Seq::empty()
    } else {
        match combo_of(tokens.last()) {
            Some(c) => combos_of(tokens.drop_last()).push(c),
            None => combos_of(tokens.drop_last()),
        }
    }
}

/// The modifier bit that a lower-case modifier name stands for, or 0.
pub fn modifier_for(name: &Vec<char>) -> (r: u32)
    ensures
        r == modifier_bit(name@),
{
    if is_text(name, "ctrl") || is_text(name, "control") {
        CONTROL_MASK
    } else if is_text(name, "shift") {
        SHIFT_MASK
    } else if is_text(name, "alt") || is_text(name, "mod1") {
        ALT_MASK
    } else if is_text(name, "super") || is_text(name, "mod4") {
        SUPER_MASK
    } else {
        0
    }
}

/// The key value of a lower-case named key.
pub fn named_key_for(name: &Vec<char>) -> (r: Option<u32>)
    ensures
        r == named_key(name@),
{
    if is_text(name, "return") || is_text(name, "enter") {
        Some(KEY_RETURN)
    } else if is_text(name, "escape") || is_text(name, "esc") {
        Some(KEY_ESCAPE)
    } else if is_text(name, "tab") {
        Some(KEY_TAB)
    } else if is_text(name, "delete") || is_text(name, "del") {
        Some(KEY_DELETE)
    } else if is_text(name, "backspace") {
        Some(KEY_BACKSPACE)
    } else if is_text(name, "up") {
        Some(KEY_UP)
    } else if is_text(name, "down") {
        Some(KEY_DOWN)
    } else if is_text(name, "left") {
        Some(KEY_LEFT)
    } else if is_text(name, "right") {
        Some(KEY_RIGHT)
    } else if is_text(name, "home") {
        Some(KEY_HOME)
    } else if is_text(name, "end") {
        Some(KEY_END)
    } else if is_text(name, "page_up") || is_text(name, "pageup") || is_text(name, "pgup") {
        Some(KEY_PAGE_UP)
    } else if is_text(name, "page_down") || is_text(name, "pagedown") || is_text(name, "pgdn") {
        Some(KEY_PAGE_DOWN)
    } else if is_text(name, "space") {
        Some(KEY_SPACE)
    } else {
        None
    }
}

/// The key value of a lower-case key token.
pub fn key_for(name: &Vec<char>) -> (r: Option<u32>)
    ensures
        r == key_of(name@),
{
    match named_key_for(name) {
        Some(k) => Some(k),
        None => {
            if name.len() == 1 && ascii_graphic(name[0]) {
                Some(name[0] as u32)
            } else {
                None
            }
        },
    }
}

fn combo_from_chars(token: &Vec<char>) -> (r: Option<KeyCombo>)
    ensures
        r == combo_of(token@),
{
    let parts = split_on(token, '+');
    let n = parts.len();
    let mut mods: u32 = 0;
    let mut i: usize = 0;
    while i < n - 1
        invariant
            n == parts.len(),
            n >= 1,
            i <= n - 1,
            mods == modifiers_of(views(parts@).take(i as int)),
        decreases n - 1 - i,
    {
        let name = lowered_chars(&parts[i]);
        proof {
            let v = views(parts@);
            assert(v.take(i + 1).drop_last() == v.take(i as int));
            assert(v.take(i + 1).last() == parts@[i as int]@);
        }
        mods = mods | modifier_for(&name);
        i += 1;
    }
    let key_name = lowered_chars(&parts[n - 1]);
    proof {
        let v = views(parts@);
        assert(v.take(n - 1) == v.drop_last());
        assert(v.last() == parts@[n - 1]@);
    }
    match key_for(&key_name) {
        Some(key) => Some(KeyCombo { key, mods }),
        None => None,
    }
}

/// Parses one chord token of the form `mod+mod+...+key`. Case is ignored.
/// A modifier token that names no modifier is passed over; a key token that
/// names no key makes the whole chord `None`.
pub fn parse_single_combo(s: &str) -> (r: Option<KeyCombo>)
    ensures
        r == combo_of(s@),
{
    let token = to_chars(s);
    combo_from_chars(&token)
}

/// Parses a list of chords separated by white space. A token that is no
/// chord is dropped; every other token gives its chord, in order.
pub fn parse_key_combos(s: &str) -> (r: Vec<KeyCombo>)
    ensures
        r@ == combos_of(split_whitespace(s@)),
{
    let chars = to_chars(s);
    let tokens = words(&chars);
    let mut out: Vec<KeyCombo> = Vec::new();
    let mut i: usize = 0;
    while i < tokens.len()
        invariant
            i <= tokens.len(),
            views(tokens@) == split_whitespace(s@),
            out@ == combos_of(views(tokens@).take(i as int)),
        decreases tokens.len() - i,
    {
        proof {
            let v = views(tokens@);
            assert(v.take(i + 1).drop_last() == v.take(i as int));
            assert(v.take(i + 1).last() == tokens@[i as int]@);
        }
        match combo_from_chars(&tokens[i]) {
            Some(c) => {
                out.push(c);
            },
            None => {},
        }
        i += 1;
    }
    proof {
        let v = views(tokens@);
        assert(v.take(tokens.len() as int) == v);
    }
    out
}

/// The number of well-formed tokens among the first `i` tokens: the place
/// that the chord of token `i` takes in the parsed list.
pub open spec fn kept_before(tokens: Seq<Seq<char>>, i: int) -> nat {
    combos_of(tokens.take(i)).len()
}

/// Parsing keeps every well-formed token: the chord of a well-formed token
/// stands in the result, at the place given by the number of well-formed
/// tokens before it, whatever the other tokens are.
pub proof fn lemma_well_formed_tokens_are_kept(tokens: Seq<Seq<char>>, i: int)
    requires
        0 <= i < tokens.len(),
        combo_of(tokens[i]) is Some,
    ensures
        kept_before(tokens, i) < combos_of(tokens).len(),
        combos_of(tokens)[kept_before(tokens, i) as int] == combo_of(tokens[i]).unwrap(),
    decreases tokens.len(),
{
    let front = tokens.drop_last();
    if i == tokens.len() - 1 {
        assert(tokens.take(i) == front);
    } else {
        assert(front.take(i) == tokens.take(i));
        lemma_well_formed_tokens_are_kept(front, i);
    }
}

/// Parsing adds nothing: every chord of the result is the chord of a
/// well-formed token, and stands at the place given by the number of
/// well-formed tokens before that token. The lemma returns the token's
/// index.
pub proof fn lemma_parsed_chords_come_from_tokens(tokens: Seq<Seq<char>>, k: int) -> (i: int)
    requires
        0 <= k < combos_of(tokens).len(),
    ensures
        0 <= i < tokens.len(),
        combo_of(tokens[i]) == Some(combos_of(tokens)[k]),
        kept_before(tokens, i) == k,
    decreases tokens.len(),
{
    let front = tokens.drop_last();
    if k < combos_of(front).len() {
        let i = lemma_parsed_chords_come_from_tokens(front, k);
        assert(front.take(i) == tokens.take(i));
        assert(tokens[i] == front[i]);
        i
    } else {
        let i = tokens.len() - 1;
        assert(tokens.take(i) == front);
        i
    }
}

/// Parsing drops nothing but malformed tokens: the result has one chord
/// for each well-formed token, so as many chords as tokens where every token
/// is well formed.
pub proof fn lemma_only_malformed_tokens_are_dropped(tokens: Seq<Seq<char>>)
    ensures
        combos_of(tokens).len() <= tokens.len(),
        (forall|i: int| 0 <= i < tokens.len() ==> combo_of(#[trigger] tokens[i]) is Some)
            ==> combos_of(tokens).len() == tokens.len(),
        (forall|i: int| 0 <= i < tokens.len() ==> combo_of(#[trigger] tokens[i]) is None)
            ==> combos_of(tokens).len() == 0,
    decreases tokens.len(),
{
    if tokens.len() > 0 {
        let front = tokens.drop_last();
        lemma_only_malformed_tokens_are_dropped(front);
        assert forall|i: int| 0 <= i < front.len() implies front[i] == tokens[i] by {}
        if forall|i: int| 0 <= i < tokens.len() ==> combo_of(#[trigger] tokens[i]) is Some {
            assert forall|i: int| 0 <= i < front.len() implies combo_of(
                #[trigger] front[i],
            ) is Some by {
                assert(front[i] == tokens[i]);
            }
            assert(combo_of(tokens[tokens.len() - 1]) is Some);
        }
        if forall|i: int| 0 <= i < tokens.len() ==> combo_of(#[trigger] tokens[i]) is None {
            assert forall|i: int| 0 <= i < front.len() implies combo_of(
                #[trigger] front[i],
            ) is None by {
                assert(front[i] == tokens[i]);
            }
            assert(combo_of(tokens[tokens.len() - 1]) is None);
        }
    }
}

/// The chords bound to each action. An action may have several chords; the
/// order of a list is that of the configuration.
#[derive(Clone, Debug)]
pub struct KeybindTable {
    pub select: Vec<KeyCombo>,
    pub delete: Vec<KeyCombo>,
    pub clear_search: Vec<KeyCombo>,
    pub close: Vec<KeyCombo>,
    pub next: Vec<KeyCombo>,
    pub prev: Vec<KeyCombo>,
    pub page_down: Vec<KeyCombo>,
    pub page_up: Vec<KeyCombo>,
    pub first: Vec<KeyCombo>,
    pub last: Vec<KeyCombo>,
}

/// The number of actions.
pub const ACTION_COUNT: usize = 10;

/// The place of an action in the order in which a table is searched.
pub open spec fn action_index(a: Action) -> int {
    match a {
        Action::Select => 0,
        Action::Delete => 1,
        Action::ClearSearch => 2,
        Action::Close => 3,
        Action::Next => 4,
        Action::Prev => 5,
        Action::PageDown => 6,
        Action::PageUp => 7,
        Action::First => 8,
        Action::Last => 9,
    }
}

/// The action at place `i` of the search order.
pub open spec fn action_at(i: int) -> Action {
    if i <= 0 {
        Action::Select
    } else if i == 1 {
        Action::Delete
    } else if i == 2 {
        Action::ClearSearch
    } else if i == 3 {
        Action::Close
    } else if i == 4 {
        Action::Next
    } else if i == 5 {
        Action::Prev
    } else if i == 6 {
        Action::PageDown
    } else if i == 7 {
        Action::PageUp
    } else if i == 8 {
        Action::First
    } else {
        Action::Last
    }
}

fn nth_action(i: usize) -> (r: Action)
    requires
        i < ACTION_COUNT,
    ensures
        r == action_at(i as int),
        action_index(r) == i,
{
    if i == 0 {
        Action::Select
    } else if i == 1 {
        Action::Delete
    } else if i == 2 {
        Action::ClearSearch
    } else if i == 3 {
        Action::Close
    } else if i == 4 {
        Action::Next
    } else if i == 5 {
        Action::Prev
    } else if i == 6 {
        Action::PageDown
    } else if i == 7 {
        Action::PageUp
    } else if i == 8 {
        Action::First
    } else {
        Action::Last
    }
}

impl KeybindTable {
    /// The chords bound to `a`.
    pub open spec fn chords(self, a: Action) -> Seq<KeyCombo> {
        match a {
            Action::Select => self.select@,
            Action::Delete => self.delete@,
            Action::ClearSearch => self.clear_search@,
            Action::Close => self.close@,
            Action::Next => self.next@,
            Action::Prev => self.prev@,
            Action::PageDown => self.page_down@,
            Action::PageUp => self.page_up@,
            Action::First => self.first@,
            Action::Last => self.last@,
        }
    }

    /// The table as a map from each action to its chords.
    pub open spec fn bindings(self) -> Map<Action, Seq<KeyCombo>> {
        Map::new(|a: Action| true, |a: Action| self.chords(a))
    }

    /// Whether the chord of `key` with exactly the modifiers `mods` is
    /// bound to `a`.
    pub open spec fn binds(self, a: Action, key: u32, mods: u32) -> bool {
        self.chords(a).contains(KeyCombo { key, mods })
    }

    /// Whether no chord is bound to two actions.
    pub open spec fn unambiguous(self) -> bool {
        forall|a: Action, b: Action, key: u32, mods: u32|
            #![trigger self.binds(a, key, mods), self.binds(b, key, mods)]
            self.binds(a, key, mods) && self.binds(b, key, mods) ==> a == b
    }

    /// A table that binds nothing.
    pub fn new() -> (r: Self)
        ensures
            forall|a: Action| (#[trigger] r.chords(a)).len() == 0,
    {
        KeybindTable {
            select: Vec::new(),
            delete: Vec::new(),
            clear_search: Vec::new(),
            close: Vec::new(),
            next: Vec::new(),
            prev: Vec::new(),
            page_down: Vec::new(),
            page_up: Vec::new(),
            first: Vec::new(),
            last: Vec::new(),
        }
    }

    /// The chords bound to `action`.
    pub fn get(&self, action: Action) -> (r: &Vec<KeyCombo>)
        ensures
            r@ == self.chords(action),
    {
        match action {
            Action::Select => &self.select,
            Action::Delete => &self.delete,
            Action::ClearSearch => &self.clear_search,
            Action::Close => &self.close,
            Action::Next => &self.next,
            Action::Prev => &self.prev,
            Action::PageDown => &self.page_down,
            Action::PageUp => &self.page_up,
            Action::First => &self.first,
            Action::Last => &self.last,
        }
    }

    /// Binds `combos` to `action` in place of what was bound to it. Every
    /// other action keeps its chords.
    pub fn insert(&mut self, action: Action, combos: Vec<KeyCombo>)
        ensures
            final(self).chords(action) == combos@,
            forall|b: Action| b != action ==> final(self).chords(b) == old(self).chords(b),
    {
        match action {
            Action::Select => {
                self.select = combos;
            },
            Action::Delete => {
                self.delete = combos;
            },
            Action::ClearSearch => {
                self.clear_search = combos;
            },
            Action::Close => {
                self.close = combos;
            },
            Action::Next => {
                self.next = combos;
            },
            Action::Prev => {
                self.prev = combos;
            },
            Action::PageDown => {
                self.page_down = combos;
            },
            Action::PageUp => {
                self.page_up = combos;
            },
            Action::First => {
                self.first = combos;
            },
            Action::Last => {
                self.last = combos;
            },
        }
    }
}

/// The chords bound to `a` where the configuration says nothing.
pub open spec fn default_chords(a: Action) -> Seq<KeyCombo> {
    match a {
        Action::Select => seq![
            KeyCombo { key: KEY_RETURN, mods: 0 },
            KeyCombo { key: KEY_KP_ENTER, mods: 0 },
        ],
        Action::Delete => seq![KeyCombo { key: KEY_DELETE, mods: 0 }],
        Action::ClearSearch => seq![KeyCombo { key: KEY_U, mods: CONTROL_MASK }],
        Action::Close => seq![KeyCombo { key: KEY_ESCAPE, mods: 0 }],
        Action::Next => seq![
            KeyCombo { key: KEY_DOWN, mods: 0 },
            KeyCombo { key: KEY_TAB, mods: 0 },
        ],
        Action::Prev => seq![
            KeyCombo { key: KEY_UP, mods: 0 },
            KeyCombo { key: KEY_TAB, mods: SHIFT_MASK },
        ],
        Action::PageDown => seq![KeyCombo { key: KEY_PAGE_DOWN, mods: 0 }],
        Action::PageUp => seq![KeyCombo { key: KEY_PAGE_UP, mods: 0 }],
        Action::First => seq![KeyCombo { key: KEY_HOME, mods: 0 }],
        Action::Last => seq![KeyCombo { key: KEY_END, mods: 0 }],
    }
}

/// The default bindings as a map.
pub open spec fn default_bindings() -> Map<Action, Seq<KeyCombo>> {
    Map::new(|a: Action| true, |a: Action| default_chords(a))
}

/// The bindings that hold where the configuration says nothing.
pub fn default_keybinds() -> (r: KeybindTable)
    ensures
        forall|a: Action| r.chords(a) == default_chords(a),
{
    let r = KeybindTable {
        select: vec![
            KeyCombo { key: KEY_RETURN, mods: 0 },
            KeyCombo { key: KEY_KP_ENTER, mods: 0 },
        ],
        delete: vec![KeyCombo { key: KEY_DELETE, mods: 0 }],
        clear_search: vec![KeyCombo { key: KEY_U, mods: CONTROL_MASK }],
        close: vec![KeyCombo { key: KEY_ESCAPE, mods: 0 }],
        next: vec![KeyCombo { key: KEY_DOWN, mods: 0 }, KeyCombo { key: KEY_TAB, mods: 0 }],
        prev: vec![
            KeyCombo { key: KEY_UP, mods: 0 },
            KeyCombo { key: KEY_TAB, mods: SHIFT_MASK },
        ],
        page_down: vec![KeyCombo { key: KEY_PAGE_DOWN, mods: 0 }],
        page_up: vec![KeyCombo { key: KEY_PAGE_UP, mods: 0 }],
        first: vec![KeyCombo { key: KEY_HOME, mods: 0 }],
        last: vec![KeyCombo { key: KEY_END, mods: 0 }],
    };
    r
}

/// The first action, in search order from place `from` on, to which the
/// chord of `key` and `pressed` is bound.
pub open spec fn first_bound(table: KeybindTable, key: u32, pressed: u32, from: int) -> Option<
    Action,
>
    decreases ACTION_COUNT - from,
{
    if from < 0 || from >= ACTION_COUNT {
        None
    } else if table.binds(action_at(from), key, pressed) {
        Some(action_at(from))
    } else {
        first_bound(table, key, pressed, from + 1)
    }
}

/// The action that a key press resolves to: the modifiers are masked to
/// the relevant set, and the first action in search order that has exactly
/// that chord is taken.
pub open spec fn resolve(table: KeybindTable, key: u32, mods: u32) -> Option<Action> {
    first_bound(table, key, mods & RELEVANT_MASK, 0)
}

/// Whether `combos` holds the chord of `key` and `pressed`.
fn has_chord(combos: &Vec<KeyCombo>, key: u32, pressed: u32) -> (r: bool)
    ensures
        r == combos@.contains(KeyCombo { key, mods: pressed }),
{
    let mut i: usize = 0;
    while i < combos.len()
        invariant
            i <= combos.len(),
            forall|k: int| 0 <= k < i ==> combos@[k] != (KeyCombo { key, mods: pressed }),
        decreases combos.len() - i,
    {
        if combos[i].key == key && combos[i].mods == pressed {
            assert(combos@[i as int] == KeyCombo { key, mods: pressed });
            return true;
        }
        i += 1;
    }
    false
}

/// Resolves a key press to the action bound to it. Modifier bits outside
/// Control, Shift, Alt and Super are ignored; the rest must equal the
/// chord's modifiers exactly. Actions are searched in their declared order.
pub fn match_action(keybinds: &KeybindTable, key: u32, mods: u32) -> (r: Option<Action>)
    ensures
        r == resolve(*keybinds, key, mods),
{
    let pressed = mods & RELEVANT_MASK;
    let mut i: usize = 0;
    while i < ACTION_COUNT
        invariant
            i <= ACTION_COUNT,
            pressed == mods & RELEVANT_MASK,
            first_bound(*keybinds, key, pressed, i as int) == resolve(*keybinds, key, mods),
        decreases ACTION_COUNT - i,
    {
        let action = nth_action(i);
        if has_chord(keybinds.get(action), key, pressed) {
            return Some(action);
        }
        i += 1;
    }
    None
}

/// What `first_bound` finds is bound, and nothing before it is.
pub proof fn lemma_first_bound(table: KeybindTable, key: u32, pressed: u32, from: int)
    requires
        0 <= from <= ACTION_COUNT,
    ensures
        match first_bound(table, key, pressed, from) {
            Some(a) => {
                &&& table.binds(a, key, pressed)
                &&& from <= action_index(a)
                &&& forall|b: Action|
                    from <= action_index(b) < action_index(a) ==> !table.binds(b, key, pressed)
            },
            None => forall|b: Action| from <= action_index(b) ==> !table.binds(b, key, pressed),
        },
    decreases ACTION_COUNT - from,
{
    if from < ACTION_COUNT {
        lemma_first_bound(table, key, pressed, from + 1);
        assert forall|b: Action| action_index(b) == from implies b == action_at(from) by {}
    }
}

/// A key press resolves to an action that has its chord, and to the first
/// such action in search order; it resolves to nothing only where no action
/// has its chord.
pub proof fn lemma_resolve(table: KeybindTable, key: u32, mods: u32)
    ensures
        match resolve(table, key, mods) {
            Some(a) => {
                &&& table.binds(a, key, mods & RELEVANT_MASK)
                &&& forall|b: Action|
                    action_index(b) < action_index(a) ==> !table.binds(
                        b,
                        key,
                        mods & RELEVANT_MASK,
                    )
            },
            None => forall|b: Action| !table.binds(b, key, mods & RELEVANT_MASK),
        },
{
    lemma_first_bound(table, key, mods & RELEVANT_MASK, 0);
    assert forall|b: Action| 0 <= action_index(b) by {}
}

/// A chord bound to one action only resolves to that action: where the
/// masked key press is a chord of `a` and of no other action, the press
/// resolves to `a`.
pub proof fn lemma_sole_binding_resolves(table: KeybindTable, a: Action, key: u32, mods: u32)
    requires
        table.binds(a, key, mods & RELEVANT_MASK),
        forall|b: Action| b != a ==> !table.binds(b, key, mods & RELEVANT_MASK),
    ensures
        resolve(table, key, mods) == Some(a),
{
    lemma_resolve(table, key, mods);
}

/// In a table where no chord is bound to two actions, a key press whose
/// masked chord is bound to `a` resolves to `a`.
pub proof fn lemma_unambiguous_resolves(table: KeybindTable, a: Action, key: u32, mods: u32)
    requires
        table.unambiguous(),
        table.binds(a, key, mods & RELEVANT_MASK),
    ensures
        resolve(table, key, mods) == Some(a),
{
    lemma_resolve(table, key, mods);
    let pressed = mods & RELEVANT_MASK;
    match resolve(table, key, mods) {
        Some(b) => {
            assert(table.binds(a, key, pressed) && table.binds(b, key, pressed));
        },
        None => {},
    }
}

/// Modifier bits outside the relevant set do not change what a key press
/// resolves to.
pub proof fn lemma_irrelevant_modifiers_ignored(
    table: KeybindTable,
    key: u32,
    mods: u32,
    other: u32,
)
    requires
        other & RELEVANT_MASK == 0,
    ensures
        resolve(table, key, mods | other) == resolve(table, key, mods),
{
    assert((mods | other) & RELEVANT_MASK == mods & RELEVANT_MASK) by (bit_vector)
        requires
            other & RELEVANT_MASK == 0,
    ;
}

/// Whether the actions at the places `x` and `y` have a chord in common.
pub open spec fn share_chord(table: KeybindTable, x: int, y: int) -> bool {
    exists|c: KeyCombo|
        table.chords(action_at(x)).contains(c) && #[trigger] table.chords(action_at(y)).contains(
            c,
        )
}

/// A chord that both lists hold, if there is one.
fn common_chord(a: &Vec<KeyCombo>, b: &Vec<KeyCombo>) -> (r: Option<KeyCombo>)
    ensures
        match r {
            Some(c) => a@.contains(c) && b@.contains(c),
            None => forall|c: KeyCombo| !(a@.contains(c) && #[trigger] b@.contains(c)),
        },
{
    let mut i: usize = 0;
    while i < a.len()
        invariant
            i <= a.len(),
            forall|k: int| 0 <= k < i ==> !b@.contains(#[trigger] a@[k]),
        decreases a.len() - i,
    {
        let c = a[i];
        if has_chord(b, c.key, c.mods) {
            assert(c == KeyCombo { key: c.key, mods: c.mods });
            assert(a@[i as int] == c);
            return Some(c);
        }
        assert(c == KeyCombo { key: c.key, mods: c.mods });
        i += 1;
    }
    assert forall|c: KeyCombo| !(a@.contains(c) && #[trigger] b@.contains(c)) by {
        if a@.contains(c) {
            let k = choose|k: int| 0 <= k < a@.len() && a@[k] == c;
            assert(!b@.contains(a@[k]));
        }
    }
    None
}

/// Where no two different places of the search order share a chord, no
/// chord is bound to two actions.
proof fn lemma_no_shared_chord(table: KeybindTable)
    requires
        forall|x: int, y: int| 0 <= x < y < ACTION_COUNT ==> !#[trigger] share_chord(table, x, y),
    ensures
        table.unambiguous(),
{
    assert forall|a: Action, b: Action, key: u32, mods: u32|
        #![trigger table.binds(a, key, mods), table.binds(b, key, mods)]
        table.binds(a, key, mods) && table.binds(b, key, mods) implies a == b by {
        let x = action_index(a);
        let y = action_index(b);
        let c = KeyCombo { key, mods };
        assert(action_at(x) == a && action_at(y) == b);
        if x < y {
            assert(table.chords(action_at(x)).contains(c) && table.chords(action_at(y)).contains(
                c,
            ));
            assert(share_chord(table, x, y));
        } else if y < x {
            assert(table.chords(action_at(y)).contains(c) && table.chords(action_at(x)).contains(
                c,
            ));
            assert(share_chord(table, y, x));
        }
    }
}

impl KeybindTable {
    /// Looks for a chord that is bound to two actions. A table with such a
    /// chord is ambiguous: which of the two actions a key press resolves to
    /// depends on the order in which the table is searched.
    pub fn find_conflict(&self) -> (r: Option<KeyCombo>)
        ensures
            match r {
                Some(c) => exists|a: Action, b: Action|
                    a != b && #[trigger] self.binds(a, c.key, c.mods) && #[trigger] self.binds(
                        b,
                        c.key,
                        c.mods,
                    ),
                None => self.unambiguous(),
            },
    {
        let mut x: usize = 0;
        while x < ACTION_COUNT
            invariant
                x <= ACTION_COUNT,
                forall|i: int, j: int|
                    0 <= i < x && i < j < ACTION_COUNT ==> !#[trigger] share_chord(*self, i, j),
            decreases ACTION_COUNT - x,
        {
            let a = nth_action(x);
            let mut y: usize = x + 1;
            while y < ACTION_COUNT
                invariant
                    x < y <= ACTION_COUNT,
                    a == action_at(x as int),
                    forall|j: int| x < j < y ==> !#[trigger] share_chord(*self, x as int, j),
                decreases ACTION_COUNT - y,
            {
                let b = nth_action(y);
                match common_chord(self.get(a), self.get(b)) {
                    Some(c) => {
                        assert(c == KeyCombo { key: c.key, mods: c.mods });
                        assert(self.binds(a, c.key, c.mods) && self.binds(b, c.key, c.mods));
                        assert(action_index(a) != action_index(b));
                        return Some(c);
                    },
                    None => {},
                }
                y += 1;
            }
            x += 1;
        }
        proof {
            lemma_no_shared_chord(*self);
        }
        None
    }
}

/// A key press as the engine sees it: the key value, the character that
/// the toolkit gives for that key value (if it gives one), and the modifier
/// bits held.
#[derive(Clone, Copy, Debug, PartialEq, Eq, Structural)]
pub struct KeyPress {
    pub key: u32,
    pub unicode: Option<char>,
    pub mods: u32,
}

/// The character of a key press for modal input: the key's character where
/// it is a printable ASCII character other than the space, else nothing.
pub open spec fn char_of(unicode: Option<char>) -> Option<char> {
    match unicode {
        Some(c) => if is_ascii_graphic(c) {
            Some(c)
        } else {
            None
        },
        None => None,
    }
}

/// The character of a key for modal input, from the character that the
/// toolkit gives for the key.
pub fn key_to_char(unicode: Option<char>) -> (r: Option<char>)
    ensures
        r == char_of(unicode),
{
    match unicode {
        Some(c) => {
            if ascii_graphic(c) {
                Some(c)
            } else {
                None
            }
        },
        None => None,
    }
}

} // verus!
