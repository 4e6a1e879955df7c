use popup_core::common::keys::{
    KeyPress, VimMode, CONTROL_MASK, KEY_DOWN, KEY_ESCAPE, KEY_RETURN, SHIFT_MASK,
};
use popup_core::common::vim::{
    get_vim_mode, handle_key, handle_vim_insert_key, handle_vim_normal_key, set_vim_mode,
    ModalState, VimAction,
};

fn ch(c: char) -> KeyPress {
    KeyPress { key: c as u32, unicode: Some(c), mods: 0 }
}

fn ctrl(c: char) -> KeyPress {
    KeyPress { key: c as u32, unicode: Some(c), mods: CONTROL_MASK }
}

fn named(key: u32) -> KeyPress {
    KeyPress { key, unicode: None, mods: 0 }
}

fn feed(state: &mut ModalState, keys: &[KeyPress], allow_delete: bool) -> Vec<Option<VimAction>> {
    keys.iter().map(|k| handle_key(state, *k, allow_delete)).collect()
}

#[test]
fn new_state_is_normal_with_nothing_pending() {
    let s = ModalState::new();
    assert_eq!(s.mode, VimMode::Normal);
    assert_eq!(s.pending, None);
    assert_eq!(get_vim_mode(&s), VimMode::Normal);
    assert_eq!(VimMode::default(), VimMode::Normal);
}

#[test]
fn set_vim_mode_clears_the_pending_key() {
    let mut s = ModalState { mode: VimMode::Normal, pending: Some('g') };
    set_vim_mode(&mut s, VimMode::Insert);
    assert_eq!(s, ModalState { mode: VimMode::Insert, pending: None });
    let mut s = ModalState { mode: VimMode::Normal, pending: Some('d') };
    set_vim_mode(&mut s, VimMode::Normal);
    assert_eq!(s, ModalState { mode: VimMode::Normal, pending: None });
}

#[test]
fn normal_mode_single_keys() {
    let cases = [
        (named(KEY_ESCAPE), Some(VimAction::Close)),
        (named(KEY_RETURN), Some(VimAction::Select)),
        (ch('i'), Some(VimAction::EnterInsert)),
        (ch('a'), Some(VimAction::EnterInsert)),
        (ch('A'), Some(VimAction::EnterInsert)),
        (ch('I'), Some(VimAction::EnterInsert)),
        (ch('/'), Some(VimAction::EnterInsert)),
        (ch('j'), Some(VimAction::Down)),
        (ch('k'), Some(VimAction::Up)),
        (ch('G'), Some(VimAction::Bottom)),
        (ctrl('d'), Some(VimAction::HalfPageDown)),
        (ctrl('u'), Some(VimAction::HalfPageUp)),
        (ch('x'), None),
        (ch('u'), None),
        (named(KEY_DOWN), None),
    ];
    for (press, expected) in cases {
        for allow_delete in [false, true] {
            let mut s = ModalState::new();
            assert_eq!(handle_vim_normal_key(&mut s, press, allow_delete), expected);
            assert_eq!(s.pending, None);
            assert_eq!(s.mode, VimMode::Normal);
        }
    }
}

#[test]
fn modal_gg_emits_one_top() {
    let mut s = ModalState::new();
    assert_eq!(handle_key(&mut s, ch('g'), true), None);
    assert_eq!(s.pending, Some('g'));
    assert_eq!(handle_key(&mut s, ch('g'), true), Some(VimAction::Top));
    assert_eq!(s.pending, None);
    assert_eq!(s.mode, VimMode::Normal);
}

#[test]
fn modal_g_then_other_key_never_emits_top() {
    let others = [
        ch('j'), ch('k'), ch('G'), ch('d'), ch('x'), ch('i'), ctrl('d'), ctrl('u'),
        named(KEY_ESCAPE), named(KEY_RETURN), named(KEY_DOWN),
    ];
    for other in others {
        for allow_delete in [false, true] {
            let mut s = ModalState::new();
            let actions = feed(&mut s, &[ch('g'), other], allow_delete);
            assert_eq!(actions[0], None);
            assert_ne!(actions[1], Some(VimAction::Top));
            assert_ne!(s.pending, Some('g'));
            // the g is spent: another g only arms the sequence again
            if s.mode == VimMode::Normal {
                assert_eq!(handle_key(&mut s, ch('g'), allow_delete), None);
            }
        }
    }
}

#[test]
fn modal_ggg_leaves_a_g_pending() {
    let mut s = ModalState::new();
    let actions = feed(&mut s, &[ch('g'), ch('g'), ch('g')], false);
    assert_eq!(actions, vec![None, Some(VimAction::Top), None]);
    assert_eq!(s.pending, Some('g'));
}

#[test]
fn modal_dd_emits_one_delete() {
    let mut s = ModalState::new();
    let actions = feed(&mut s, &[ch('d'), ch('d')], true);
    assert_eq!(actions, vec![None, Some(VimAction::Delete)]);
    assert_eq!(s.pending, None);
}

#[test]
fn modal_d_then_j_moves_down_without_delete() {
    let mut s = ModalState::new();
    let actions = feed(&mut s, &[ch('d'), ch('j')], true);
    assert_eq!(actions, vec![None, Some(VimAction::Down)]);
    assert_eq!(s.pending, None);
    // the d is spent
    assert_eq!(handle_key(&mut s, ch('d'), true), None);
    assert_eq!(s.pending, Some('d'));
}

#[test]
fn modal_dd_is_disabled_without_delete() {
    let mut s = ModalState::new();
    let actions = feed(&mut s, &[ch('d'), ch('d'), ch('d')], false);
    assert_eq!(actions, vec![None, None, None]);
    assert_eq!(s.pending, None);
}

#[test]
fn modal_mixed_sequences_do_not_complete() {
    let mut s = ModalState::new();
    let actions = feed(&mut s, &[ch('g'), ch('d'), ch('g'), ch('d')], true);
    assert_eq!(actions, vec![None, None, None, None]);
    assert_eq!(s.pending, Some('d'));
    assert_eq!(handle_key(&mut s, ch('d'), true), Some(VimAction::Delete));
}

#[test]
fn modal_control_d_pages_whatever_delete_says() {
    for allow_delete in [false, true] {
        let mut s = ModalState::new();
        let actions = feed(&mut s, &[ctrl('d'), ctrl('d')], allow_delete);
        assert_eq!(actions, vec![Some(VimAction::HalfPageDown), Some(VimAction::HalfPageDown)]);
        assert_eq!(s.pending, None);
    }
    // a pending d is discarded by it
    let mut s = ModalState::new();
    let actions = feed(&mut s, &[ch('d'), ctrl('d'), ch('d')], true);
    assert_eq!(actions, vec![None, Some(VimAction::HalfPageDown), None]);
}

#[test]
fn modal_modifiers_do_not_matter_for_plain_keys() {
    let mut s = ModalState::new();
    let j = KeyPress { key: 'j' as u32, unicode: Some('j'), mods: CONTROL_MASK | SHIFT_MASK };
    assert_eq!(handle_key(&mut s, j, false), Some(VimAction::Down));
}

#[test]
fn modal_insert_round_trip() {
    let mut s = ModalState::new();
    assert_eq!(handle_key(&mut s, ch('g'), true), None);
    assert_eq!(handle_key(&mut s, ch('i'), true), Some(VimAction::EnterInsert));
    assert_eq!(s, ModalState { mode: VimMode::Insert, pending: None });
    // every key but Escape passes through, and the state stays
    for press in [ch('g'), ch('j'), ch('d'), named(KEY_RETURN), ctrl('d'), named(KEY_DOWN)] {
        assert_eq!(handle_key(&mut s, press, true), None);
        assert_eq!(s, ModalState { mode: VimMode::Insert, pending: None });
    }
    assert_eq!(handle_key(&mut s, named(KEY_ESCAPE), true), Some(VimAction::ExitInsert));
    assert_eq!(s, ModalState { mode: VimMode::Normal, pending: None });
    // the g typed before Insert mode is forgotten
    assert_eq!(handle_key(&mut s, ch('g'), true), None);
}

#[test]
fn insert_handler_knows_escape_only() {
    assert_eq!(handle_vim_insert_key(KEY_ESCAPE), Some(VimAction::ExitInsert));
    assert_eq!(handle_vim_insert_key(KEY_RETURN), None);
    assert_eq!(handle_vim_insert_key('j' as u32), None);
}

#[test]
fn normal_handler_leaves_the_mode_to_the_caller() {
    let mut s = ModalState::new();
    assert_eq!(handle_vim_normal_key(&mut s, ch('i'), false), Some(VimAction::EnterInsert));
    assert_eq!(s.mode, VimMode::Normal);
    set_vim_mode(&mut s, VimMode::Insert);
    assert_eq!(get_vim_mode(&s), VimMode::Insert);
}

#[test]
fn escape_and_return_win_over_the_character() {
    let mut s = ModalState::new();
    let odd = KeyPress { key: KEY_ESCAPE, unicode: Some('g'), mods: 0 };
    assert_eq!(handle_key(&mut s, odd, true), Some(VimAction::Close));
    let odd = KeyPress { key: KEY_RETURN, unicode: Some('j'), mods: 0 };
    assert_eq!(handle_key(&mut s, odd, true), Some(VimAction::Select));
}
