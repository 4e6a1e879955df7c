use popup_core::common::keys::{
    default_keybinds, key_to_char, match_action, parse_action, parse_key_combos,
    parse_single_combo, Action, KeyCombo, KeybindTable, ALT_MASK, CONTROL_MASK, KEY_BACKSPACE,
    KEY_DELETE, KEY_DOWN, KEY_END, KEY_ESCAPE, KEY_HOME, KEY_KP_ENTER, KEY_LEFT, KEY_PAGE_DOWN,
    KEY_PAGE_UP, KEY_RETURN, KEY_RIGHT, KEY_SPACE, KEY_TAB, KEY_U, KEY_UP, RELEVANT_MASK,
    SHIFT_MASK, SUPER_MASK,
};

const LOCK_MASK: u32 = 0x2;
const NUM_LOCK_MASK: u32 = 0x10;

fn combo(key: u32, mods: u32) -> KeyCombo {
    KeyCombo { key, mods }
}

#[test]
fn parse_action_knows_every_action() {
    assert_eq!(parse_action("select"), Some(Action::Select));
    assert_eq!(parse_action("delete"), Some(Action::Delete));
    assert_eq!(parse_action("clear_search"), Some(Action::ClearSearch));
    assert_eq!(parse_action("close"), Some(Action::Close));
    assert_eq!(parse_action("next"), Some(Action::Next));
    assert_eq!(parse_action("prev"), Some(Action::Prev));
    assert_eq!(parse_action("page_down"), Some(Action::PageDown));
    assert_eq!(parse_action("page_up"), Some(Action::PageUp));
    assert_eq!(parse_action("first"), Some(Action::First));
    assert_eq!(parse_action("last"), Some(Action::Last));
}

#[test]
fn parse_action_rejects_other_names() {
    assert_eq!(parse_action(""), None);
    assert_eq!(parse_action("Select"), None);
    assert_eq!(parse_action("select "), None);
    assert_eq!(parse_action("open"), None);
}

#[test]
fn single_combo_named_keys() {
    assert_eq!(parse_single_combo("Return"), Some(combo(KEY_RETURN, 0)));
    assert_eq!(parse_single_combo("enter"), Some(combo(KEY_RETURN, 0)));
    assert_eq!(parse_single_combo("Escape"), Some(combo(KEY_ESCAPE, 0)));
    assert_eq!(parse_single_combo("esc"), Some(combo(KEY_ESCAPE, 0)));
    assert_eq!(parse_single_combo("Tab"), Some(combo(KEY_TAB, 0)));
    assert_eq!(parse_single_combo("Delete"), Some(combo(KEY_DELETE, 0)));
    assert_eq!(parse_single_combo("del"), Some(combo(KEY_DELETE, 0)));
    assert_eq!(parse_single_combo("BackSpace"), Some(combo(KEY_BACKSPACE, 0)));
    assert_eq!(parse_single_combo("Up"), Some(combo(KEY_UP, 0)));
    assert_eq!(parse_single_combo("Down"), Some(combo(KEY_DOWN, 0)));
    assert_eq!(parse_single_combo("Left"), Some(combo(KEY_LEFT, 0)));
    assert_eq!(parse_single_combo("Right"), Some(combo(KEY_RIGHT, 0)));
    assert_eq!(parse_single_combo("Home"), Some(combo(KEY_HOME, 0)));
    assert_eq!(parse_single_combo("End"), Some(combo(KEY_END, 0)));
    assert_eq!(parse_single_combo("Page_Up"), Some(combo(KEY_PAGE_UP, 0)));
    assert_eq!(parse_single_combo("pageup"), Some(combo(KEY_PAGE_UP, 0)));
    assert_eq!(parse_single_combo("PgUp"), Some(combo(KEY_PAGE_UP, 0)));
    assert_eq!(parse_single_combo("Page_Down"), Some(combo(KEY_PAGE_DOWN, 0)));
    assert_eq!(parse_single_combo("pagedown"), Some(combo(KEY_PAGE_DOWN, 0)));
    assert_eq!(parse_single_combo("pgdn"), Some(combo(KEY_PAGE_DOWN, 0)));
    assert_eq!(parse_single_combo("space"), Some(combo(KEY_SPACE, 0)));
}

#[test]
fn single_combo_key_values_are_those_of_the_toolkit() {
    assert_eq!(KEY_RETURN, 65293);
    assert_eq!(KEY_KP_ENTER, 65421);
    assert_eq!(KEY_ESCAPE, 65307);
    assert_eq!(KEY_TAB, 65289);
    assert_eq!(KEY_DELETE, 65535);
    assert_eq!(KEY_BACKSPACE, 65288);
    assert_eq!(KEY_UP, 65362);
    assert_eq!(KEY_DOWN, 65364);
    assert_eq!(KEY_LEFT, 65361);
    assert_eq!(KEY_RIGHT, 65363);
    assert_eq!(KEY_HOME, 65360);
    assert_eq!(KEY_END, 65367);
    assert_eq!(KEY_PAGE_UP, 65365);
    assert_eq!(KEY_PAGE_DOWN, 65366);
    assert_eq!(KEY_SPACE, 32);
    assert_eq!(KEY_U, 117);
    assert_eq!(SHIFT_MASK, 1);
    assert_eq!(CONTROL_MASK, 4);
    assert_eq!(ALT_MASK, 8);
    assert_eq!(SUPER_MASK, 67108864);
    assert_eq!(RELEVANT_MASK, SHIFT_MASK | CONTROL_MASK | ALT_MASK | SUPER_MASK);
}

#[test]
fn single_combo_single_characters() {
    assert_eq!(parse_single_combo("a"), Some(combo('a' as u32, 0)));
    assert_eq!(parse_single_combo("u"), Some(combo(KEY_U, 0)));
    assert_eq!(parse_single_combo("7"), Some(combo('7' as u32, 0)));
    assert_eq!(parse_single_combo(";"), Some(combo(';' as u32, 0)));
    // the key token is folded to lower case
    assert_eq!(parse_single_combo("Q"), Some(combo('q' as u32, 0)));
}

#[test]
fn single_combo_modifiers() {
    assert_eq!(parse_single_combo("ctrl+u"), Some(combo(KEY_U, CONTROL_MASK)));
    assert_eq!(parse_single_combo("Control+U"), Some(combo(KEY_U, CONTROL_MASK)));
    assert_eq!(parse_single_combo("shift+Tab"), Some(combo(KEY_TAB, SHIFT_MASK)));
    assert_eq!(parse_single_combo("alt+x"), Some(combo('x' as u32, ALT_MASK)));
    assert_eq!(parse_single_combo("mod1+x"), Some(combo('x' as u32, ALT_MASK)));
    assert_eq!(parse_single_combo("super+x"), Some(combo('x' as u32, SUPER_MASK)));
    assert_eq!(parse_single_combo("mod4+x"), Some(combo('x' as u32, SUPER_MASK)));
    assert_eq!(
        parse_single_combo("ctrl+shift+alt+super+Return"),
        Some(combo(KEY_RETURN, CONTROL_MASK | SHIFT_MASK | ALT_MASK | SUPER_MASK))
    );
    assert_eq!(parse_single_combo("CTRL+ctrl+u"), Some(combo(KEY_U, CONTROL_MASK)));
}

#[test]
fn single_combo_unknown_modifier_is_ignored() {
    assert_eq!(parse_single_combo("hyper+u"), Some(combo(KEY_U, 0)));
    assert_eq!(parse_single_combo("ctrl+hyper+u"), Some(combo(KEY_U, CONTROL_MASK)));
    assert_eq!(parse_single_combo("+u"), Some(combo(KEY_U, 0)));
}

#[test]
fn single_combo_unknown_key_drops_the_chord() {
    assert_eq!(parse_single_combo(""), None);
    assert_eq!(parse_single_combo("ctrl+"), None);
    assert_eq!(parse_single_combo("ctrl"), None);
    assert_eq!(parse_single_combo("F13"), None);
    assert_eq!(parse_single_combo("ctrl+nosuchkey"), None);
    assert_eq!(parse_single_combo("KP_Enter"), None);
    assert_eq!(parse_single_combo("é"), None);
    assert_eq!(parse_single_combo("\u{1}"), None);
}

#[test]
fn key_combos_split_on_white_space() {
    assert_eq!(
        parse_key_combos("Return ctrl+u"),
        vec![combo(KEY_RETURN, 0), combo(KEY_U, CONTROL_MASK)]
    );
    assert_eq!(
        parse_key_combos("  Down\tTab \n shift+Tab  "),
        vec![combo(KEY_DOWN, 0), combo(KEY_TAB, 0), combo(KEY_TAB, SHIFT_MASK)]
    );
    assert_eq!(parse_key_combos(""), Vec::<KeyCombo>::new());
    assert_eq!(parse_key_combos("   "), Vec::<KeyCombo>::new());
}

#[test]
fn key_combos_drop_only_the_malformed_tokens() {
    assert_eq!(
        parse_key_combos("Return bogus ctrl+u F99 End"),
        vec![combo(KEY_RETURN, 0), combo(KEY_U, CONTROL_MASK), combo(KEY_END, 0)]
    );
    assert_eq!(parse_key_combos("bogus alsobogus"), Vec::<KeyCombo>::new());
    // the same tokens without the malformed ones give the same chords
    assert_eq!(
        parse_key_combos("Return bogus ctrl+u F99 End"),
        parse_key_combos("Return ctrl+u End")
    );
}

#[test]
fn default_keybinds_hold_the_defaults() {
    let t = default_keybinds();
    assert_eq!(t.select, vec![combo(KEY_RETURN, 0), combo(KEY_KP_ENTER, 0)]);
    assert_eq!(t.delete, vec![combo(KEY_DELETE, 0)]);
    assert_eq!(t.clear_search, vec![combo(KEY_U, CONTROL_MASK)]);
    assert_eq!(t.close, vec![combo(KEY_ESCAPE, 0)]);
    assert_eq!(t.next, vec![combo(KEY_DOWN, 0), combo(KEY_TAB, 0)]);
    assert_eq!(t.prev, vec![combo(KEY_UP, 0), combo(KEY_TAB, SHIFT_MASK)]);
    assert_eq!(t.page_down, vec![combo(KEY_PAGE_DOWN, 0)]);
    assert_eq!(t.page_up, vec![combo(KEY_PAGE_UP, 0)]);
    assert_eq!(t.first, vec![combo(KEY_HOME, 0)]);
    assert_eq!(t.last, vec![combo(KEY_END, 0)]);
    assert_eq!(t.find_conflict(), None);
}

#[test]
fn match_action_resolves_the_defaults() {
    let t = default_keybinds();
    assert_eq!(match_action(&t, KEY_RETURN, 0), Some(Action::Select));
    assert_eq!(match_action(&t, KEY_KP_ENTER, 0), Some(Action::Select));
    assert_eq!(match_action(&t, KEY_DELETE, 0), Some(Action::Delete));
    assert_eq!(match_action(&t, KEY_U, CONTROL_MASK), Some(Action::ClearSearch));
    assert_eq!(match_action(&t, KEY_ESCAPE, 0), Some(Action::Close));
    assert_eq!(match_action(&t, KEY_DOWN, 0), Some(Action::Next));
    assert_eq!(match_action(&t, KEY_TAB, 0), Some(Action::Next));
    assert_eq!(match_action(&t, KEY_UP, 0), Some(Action::Prev));
    assert_eq!(match_action(&t, KEY_TAB, SHIFT_MASK), Some(Action::Prev));
    assert_eq!(match_action(&t, KEY_PAGE_DOWN, 0), Some(Action::PageDown));
    assert_eq!(match_action(&t, KEY_PAGE_UP, 0), Some(Action::PageUp));
    assert_eq!(match_action(&t, KEY_HOME, 0), Some(Action::First));
    assert_eq!(match_action(&t, KEY_END, 0), Some(Action::Last));
}

#[test]
fn match_action_needs_the_exact_modifiers() {
    let t = default_keybinds();
    // a subset or a superset of the chord's modifiers is no match
    assert_eq!(match_action(&t, KEY_U, 0), None);
    assert_eq!(match_action(&t, KEY_U, CONTROL_MASK | SHIFT_MASK), None);
    assert_eq!(match_action(&t, KEY_RETURN, CONTROL_MASK), None);
    assert_eq!(match_action(&t, KEY_TAB, SHIFT_MASK | ALT_MASK), None);
    assert_eq!(match_action(&t, 'x' as u32, 0), None);
}

#[test]
fn match_action_ignores_irrelevant_modifiers() {
    let t = default_keybinds();
    assert_eq!(match_action(&t, KEY_RETURN, LOCK_MASK), Some(Action::Select));
    assert_eq!(match_action(&t, KEY_RETURN, NUM_LOCK_MASK | LOCK_MASK), Some(Action::Select));
    assert_eq!(
        match_action(&t, KEY_U, CONTROL_MASK | NUM_LOCK_MASK),
        Some(Action::ClearSearch)
    );
    assert_eq!(match_action(&t, KEY_TAB, SHIFT_MASK | LOCK_MASK), Some(Action::Prev));
}

#[test]
fn match_action_on_an_empty_table() {
    let t = KeybindTable::new();
    assert_eq!(match_action(&t, KEY_RETURN, 0), None);
    assert_eq!(t.find_conflict(), None);
}

#[test]
fn match_action_sole_binding() {
    // a chord bound to one action only resolves to that action
    let mut t = KeybindTable::new();
    t.insert(Action::Last, vec![combo('z' as u32, ALT_MASK)]);
    t.insert(Action::First, vec![combo('a' as u32, ALT_MASK), combo('z' as u32, 0)]);
    assert_eq!(match_action(&t, 'z' as u32, ALT_MASK), Some(Action::Last));
    assert_eq!(match_action(&t, 'z' as u32, ALT_MASK | LOCK_MASK), Some(Action::Last));
    assert_eq!(match_action(&t, 'z' as u32, 0), Some(Action::First));
    assert_eq!(match_action(&t, 'a' as u32, ALT_MASK), Some(Action::First));
    assert_eq!(t.find_conflict(), None);
}

#[test]
fn insert_replaces_one_action_only() {
    let mut t = default_keybinds();
    t.insert(Action::Select, vec![combo(KEY_SPACE, 0)]);
    assert_eq!(t.get(Action::Select), &vec![combo(KEY_SPACE, 0)]);
    assert_eq!(match_action(&t, KEY_RETURN, 0), None);
    assert_eq!(match_action(&t, KEY_SPACE, 0), Some(Action::Select));
    assert_eq!(t.get(Action::Close), default_keybinds().get(Action::Close));
    assert_eq!(match_action(&t, KEY_ESCAPE, 0), Some(Action::Close));
}

#[test]
fn overlapping_chords_are_found_and_resolve_in_declared_order() {
    let mut t = default_keybinds();
    t.insert(Action::Last, vec![combo(KEY_END, 0), combo(KEY_ESCAPE, 0)]);
    assert_eq!(t.find_conflict(), Some(combo(KEY_ESCAPE, 0)));
    // Close is declared before Last
    assert_eq!(match_action(&t, KEY_ESCAPE, 0), Some(Action::Close));
}

#[test]
fn key_to_char_keeps_printable_ascii() {
    assert_eq!(key_to_char(Some('g')), Some('g'));
    assert_eq!(key_to_char(Some('G')), Some('G'));
    assert_eq!(key_to_char(Some('/')), Some('/'));
    assert_eq!(key_to_char(Some('!')), Some('!'));
    assert_eq!(key_to_char(Some('~')), Some('~'));
    assert_eq!(key_to_char(Some(' ')), None);
    assert_eq!(key_to_char(Some('\u{7f}')), None);
    assert_eq!(key_to_char(Some('\r')), None);
    assert_eq!(key_to_char(Some('é')), None);
    assert_eq!(key_to_char(None), None);
}
