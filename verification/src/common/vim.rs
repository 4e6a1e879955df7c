//! Modal (vim-style) input: a state machine with the modes Normal and
//! Insert that turns each key press into at most one action, and resolves
//! the two-key sequences `gg` and `dd`.

use crate::common::keys::{
    char_of, key_to_char, KeyPress, VimMode, CONTROL_MASK, KEY_ESCAPE, KEY_RETURN,
};
use vstd::prelude::*;

verus! {

/// What a key press asks for under modal input.
#[derive(Clone, Copy, Debug, PartialEq, Eq, Structural)]
pub enum VimAction {
    EnterInsert,
    ExitInsert,
    Close,
    Down,
    Up,
    Top,
    Bottom,
    HalfPageDown,
    HalfPageUp,
    Select,
    Delete,
}

/// The state of modal input: the mode, and the first key of a two-key
/// sequence that waits for its second.
#[derive(Clone, Copy, Debug, PartialEq, Eq, Structural)]
pub struct ModalState {
    pub mode: VimMode,
    pub pending: Option<char>,
}

impl ModalState {
    /// A key is pending only in Normal mode, and only `g` or `d` ever is.
    pub open spec fn wf(self) -> bool {
        &&& self.mode == VimMode::Insert ==> self.pending is None
        &&& self.pending is None || self.pending == Some('g') || self.pending == Some('d')
    }

    /// Normal mode with no key pending.
    pub fn new() -> (r: Self)
        ensures
            r == (ModalState { mode: VimMode::Normal, pending: None }),
            r.wf(),
    {
        ModalState { mode: VimMode::Normal, pending: None }
    }
}

/// Whether the Control modifier is held.
pub open spec fn control_held(mods: u32) -> bool {
    mods & CONTROL_MASK != 0
}

/// What Normal mode does with a key press, given the pending key: the new
/// pending key and the action emitted.
///
/// Escape closes and Return selects. Control with `d` or `u` moves half a
/// page. `i`, `a`, `A`, `I` and `/` enter Insert mode; `j`, `k` and `G` move.
/// `g` completes a pending `g` to `Top`, and is buffered otherwise; `d` does
/// the same for `Delete` where `allow_delete` holds. Every other key does
/// nothing. Whatever does not buffer a key clears the pending one.
pub open spec fn normal_key(pending: Option<char>, press: KeyPress, allow_delete: bool) -> (
    Option<char>,
    Option<VimAction>,
) {
    let c = char_of(press.unicode);
    if press.key == KEY_ESCAPE {
        (None, Some(VimAction::Close))
    } else if press.key == KEY_RETURN {
        (None, Some(VimAction::Select))
    } else if control_held(press.mods) && c == Some('d') {
        (None, Some(VimAction::HalfPageDown))
    } else if control_held(press.mods) && c == Some('u') {
        (None, Some(VimAction::HalfPageUp))
    } else if c == Some('i') || c == Some('a') || c == Some('A') || c == Some('I') || c == Some(
        '/',
    ) {
        (None, Some(VimAction::EnterInsert))
    } else if c == Some('j') {
        (None, Some(VimAction::Down))
    } else if c == Some('k') {
        (None, Some(VimAction::Up))
    } else if c == Some('G') {
        (None, Some(VimAction::Bottom))
    } else if c == Some('g') {
        if pending == Some('g') {
            (None, Some(VimAction::Top))
        } else {
            (Some('g'), None)
        }
    } else if c == Some('d') && allow_delete {
        if pending == Some('d') {
            (None, Some(VimAction::Delete))
        } else {
            (Some('d'), None)
        }
    } else {
        (None, None)
    }
}

/// What Insert mode does with a key: Escape leaves Insert mode, every
/// other key is not handled and goes to the text field.
pub open spec fn insert_key(key: u32) -> Option<VimAction> {
    if key == KEY_ESCAPE {
        Some(VimAction::ExitInsert)
    } else {
        None
    }
}

/// One step of the state machine: the state after a key press, and the
/// action emitted.
pub open spec fn transition(state: ModalState, press: KeyPress, allow_delete: bool) -> (
    ModalState,
    Option<VimAction>,
) {
    match state.mode {
        VimMode::Normal => {
            let (pending, action) = normal_key(state.pending, press, allow_delete);
            if action == Some(VimAction::EnterInsert) {
                (ModalState { mode: VimMode::Insert, pending: None }, action)
            } else {
                (ModalState { mode: VimMode::Normal, pending }, action)
            }
        },
        VimMode::Insert => {
            let action = insert_key(press.key);
            if action == Some(VimAction::ExitInsert) {
                (ModalState { mode: VimMode::Normal, pending: None }, action)
            } else {
                (state, action)
            }
        },
    }
}

/// Sets the mode and clears the pending key.
pub fn set_vim_mode(state: &mut ModalState, mode: VimMode)
    ensures
        *final(state) == (ModalState { mode, pending: None }),
        final(state).wf(),
{
    state.mode = mode;
    state.pending = None;
}

/// The mode.
pub fn get_vim_mode(state: &ModalState) -> (r: VimMode)
    ensures
        r == state.mode,
{
    state.mode
}

/// Handles a key press in Normal mode: returns the action, if the press
/// gives one, and updates the pending key. The mode is left as it is; on
/// `EnterInsert` the caller changes it with `set_vim_mode`.
pub fn handle_vim_normal_key(state: &mut ModalState, press: KeyPress, allow_delete: bool) -> (r:
    Option<VimAction>)
    ensures
        r == normal_key(old(state).pending, press, allow_delete).1,
        final(state).pending == normal_key(old(state).pending, press, allow_delete).0,
        final(state).mode == old(state).mode,
        old(state).mode == VimMode::Normal ==> final(state).wf(),
{
    let key_char = key_to_char(press.unicode);
    let pending = state.pending;
    state.pending = None;
    if press.key == KEY_ESCAPE {
        return Some(VimAction::Close);
    }
    if press.key == KEY_RETURN {
        return Some(VimAction::Select);
    }
    let ctrl = press.mods & CONTROL_MASK != 0;
    match key_char {
        Some(c) => {
            if ctrl && c == 'd' {
                Some(VimAction::HalfPageDown)
            } else if ctrl && c == 'u' {
                Some(VimAction::HalfPageUp)
            } else if c == 'i' || c == 'a' || c == 'A' || c == 'I' || c == '/' {
                Some(VimAction::EnterInsert)
            } else if c == 'j' {
                Some(VimAction::Down)
            } else if c == 'k' {
                Some(VimAction::Up)
            } else if c == 'G' {
                Some(VimAction::Bottom)
            } else if c == 'g' {
                if pending == Some('g') {
                    Some(VimAction::Top)
                } else {
                    state.pending = Some('g');
                    None
                }
            } else if c == 'd' && allow_delete {
                if pending == Some('d') {
                    Some(VimAction::Delete)
                } else {
                    state.pending = Some('d');
                    None
                }
            } else {
                None
            }
        },
        None => None,
    }
}

/// Handles a key in Insert mode: `ExitInsert` for Escape, nothing for any
/// other key, which the caller hands to the text field.
pub fn handle_vim_insert_key(key: u32) -> (r: Option<VimAction>)
    ensures
        r == insert_key(key),
{
    if key == KEY_ESCAPE {
        return Some(VimAction::ExitInsert);
    }
    None
}

/// Feeds one key press to the state machine: returns the action emitted
/// and moves the state on, mode changes included.
pub fn handle_key(state: &mut ModalState, press: KeyPress, allow_delete: bool) -> (r: Option<
    VimAction,
>)
    ensures
        (*final(state), r) == transition(*old(state), press, allow_delete),
        old(state).wf() ==> final(state).wf(),
{
    match state.mode {
        VimMode::Normal => {
            let action = handle_vim_normal_key(state, press, allow_delete);
            if action == Some(VimAction::EnterInsert) {
                set_vim_mode(state, VimMode::Insert);
            }
            action
        },
        VimMode::Insert => {
            let action = handle_vim_insert_key(press.key);
            if action == Some(VimAction::ExitInsert) {
                set_vim_mode(state, VimMode::Normal);
            }
            action
        },
    }
}

/// Whether `press` is a press of the character key `c`: neither Escape nor
/// Return, and a key whose character is `c`.
pub open spec fn is_char_press(press: KeyPress, c: char) -> bool {
    &&& press.key != KEY_ESCAPE
    &&& press.key != KEY_RETURN
    &&& char_of(press.unicode) == Some(c)
}

/// The pending key is cleared by every key press that does not buffer a
/// key, and whenever the mode changes; only `g` and `d` are ever buffered,
/// and only in Normal mode.
pub proof fn lemma_pending_discipline(state: ModalState, press: KeyPress, allow_delete: bool)
    ensures
        ({
            let (next, action) = transition(state, press, allow_delete);
            &&& state.wf() ==> next.wf()
            &&& next.mode != state.mode ==> next.pending is None
            &&& state.mode == VimMode::Normal ==> {
                &&& action is Some ==> next.pending is None
                &&& next.pending is None || next.pending == char_of(press.unicode)
                &&& next.pending == Some('g') ==> is_char_press(press, 'g')
                &&& next.pending == Some('d') ==> allow_delete && is_char_press(press, 'd')
            }
        }),
{
}

/// A key other than `g` never emits `Top`, whatever went before it: so
/// `g` followed by any other key emits no `Top` for that key.
pub proof fn lemma_no_top_without_g(state: ModalState, press: KeyPress, allow_delete: bool)
    requires
        !is_char_press(press, 'g'),
    ensures
        transition(state, press, allow_delete).1 != Some(VimAction::Top),
{
}

/// `g` then a key other than `g`, from Normal mode with nothing pending:
/// neither press emits `Top`.
pub proof fn lemma_g_then_other(
    state: ModalState,
    g: KeyPress,
    other: KeyPress,
    allow_delete: bool,
)
    requires
        state.mode == VimMode::Normal,
        state.pending != Some('g'),
        is_char_press(g, 'g'),
        !is_char_press(other, 'g'),
    ensures
        ({
            let (s1, a1) = transition(state, g, allow_delete);
            let (s2, a2) = transition(s1, other, allow_delete);
            &&& a1 != Some(VimAction::Top)
            &&& a2 != Some(VimAction::Top)
            &&& s2.pending != Some('g')
        }),
{
}

/// `g`, `g` from Normal mode emits exactly one `Top`. Where no `g` was
/// pending before, the first press emits nothing, the second emits `Top`,
/// and no key is pending afterwards.
pub proof fn lemma_gg_emits_one_top(
    state: ModalState,
    g1: KeyPress,
    g2: KeyPress,
    allow_delete: bool,
)
    requires
        state.mode == VimMode::Normal,
        is_char_press(g1, 'g'),
        is_char_press(g2, 'g'),
    ensures
        ({
            let (s1, a1) = transition(state, g1, allow_delete);
            let (s2, a2) = transition(s1, g2, allow_delete);
            &&& (a1 == Some(VimAction::Top)) != (a2 == Some(VimAction::Top))
            &&& s2.mode == VimMode::Normal
            &&& state.pending != Some('g') ==> {
                &&& a1 is None
                &&& a2 == Some(VimAction::Top)
                &&& s2.pending is None
            }
        }),
{
    assert(!control_held(g1.mods) || char_of(g1.unicode) != Some('d'));
}

/// `d`, `d` from Normal mode with deletion enabled and no `d` pending emits
/// exactly one `Delete`, on the second press; with deletion disabled
/// neither press emits anything, and nothing is left pending.
pub proof fn lemma_dd(state: ModalState, d1: KeyPress, d2: KeyPress, allow_delete: bool)
    requires
        state.mode == VimMode::Normal,
        state.pending != Some('d'),
        is_char_press(d1, 'd'),
        is_char_press(d2, 'd'),
        !control_held(d1.mods),
        !control_held(d2.mods),
    ensures
        ({
            let (s1, a1) = transition(state, d1, allow_delete);
            let (s2, a2) = transition(s1, d2, allow_delete);
            &&& a1 is None
            &&& a2 == if allow_delete {
                Some(VimAction::Delete)
            } else {
                None
            }
            &&& s2.pending is None
        }),
{
}

} // verus!
