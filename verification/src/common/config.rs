//! The configuration that both tools read: the grammar of the file, the
//! values of its keys, and the window settings.

use crate::common::keys::{
    action_of, combos_of, default_bindings, default_keybinds, parse_action, parse_key_combos,
    Action, KeyCombo, KeybindTable,
};
use crate::common::paths::{expanded, shellexpand};
use crate::text::{
    decimal_i32, find_char, first_index, from_chars, is_text, lowercase_of, lowered,
    lowered_chars, parse_i32, replace_char, replaced, slice_of, split_char, split_on,
    split_whitespace, to_chars, trim, trimmed, views,
};
use vstd::prelude::*;

verus! {

/// Where the window is placed on the screen.
#[derive(Clone, Copy, Debug, PartialEq, Eq, Structural)]
pub enum Anchor {
    Center,
    Top,
    TopLeft,
    TopRight,
    Bottom,
    BottomLeft,
    BottomRight,
    Cursor,
}

/// The curve of an animation.
#[derive(Clone, Copy, Debug, PartialEq, Eq, Structural)]
pub enum Easing {
    Linear,
    EaseIn,
    EaseOut,
    EaseInOut,
    Bounce,
}

impl Default for Easing {
    fn default() -> (r: Self)
        ensures
            r == Easing::EaseOut,
    {
        Easing::EaseOut
    }
}

/// The easing that a normalised name (lower case, `_` for `-`) stands for;
/// `EaseOut` for a name that is none.
pub open spec fn easing_of(name: Seq<char>) -> Easing {
    if name == "linear"@ {
        Easing::Linear
    } else if name == "ease_in"@ || name == "easein"@ {
        Easing::EaseIn
    } else if name == "ease_out"@ || name == "easeout"@ {
        Easing::EaseOut
    } else if name == "ease_in_out"@ || name == "easeinout"@ {
        Easing::EaseInOut
    } else if name == "bounce"@ {
        Easing::Bounce
    } else {
        Easing::EaseOut
    }
}

/// The easing that `s` names. Case is ignored and `-` reads as `_`; a name
/// that is none gives `EaseOut`.
pub fn parse_easing(s: &str) -> (r: Easing)
    ensures
        r == easing_of(replace_char(lowercase_of(s@), '-', '_')),
{
    let l = lowered(s);
    easing_from_name(&replaced(&l, '-', '_'))
}

/// The easing that a normalised name stands for.
pub fn easing_from_name(name: &Vec<char>) -> (r: Easing)
    ensures
        r == easing_of(name@),
{
    if is_text(&name, "linear") {
        Easing::Linear
    } else if is_text(&name, "ease_in") || is_text(&name, "easein") {
        Easing::EaseIn
    } else if is_text(&name, "ease_out") || is_text(&name, "easeout") {
        Easing::EaseOut
    } else if is_text(&name, "ease_in_out") || is_text(&name, "easeinout") {
        Easing::EaseInOut
    } else if is_text(&name, "bounce") {
        Easing::Bounce
    } else {
        Easing::EaseOut
    }
}

/// The anchor that a normalised name (lower case, `_` for `-`) stands for;
/// `Center` for a name that is none.
pub open spec fn anchor_of(name: Seq<char>) -> Anchor {
    if name == "center"@ {
        Anchor::Center
    } else if name == "top"@ {
        Anchor::Top
    } else if name == "top_left"@ || name == "topleft"@ {
        Anchor::TopLeft
    } else if name == "top_right"@ || name == "topright"@ {
        Anchor::TopRight
    } else if name == "bottom"@ {
        Anchor::Bottom
    } else if name == "bottom_left"@ || name == "bottomleft"@ {
        Anchor::BottomLeft
    } else if name == "bottom_right"@ || name == "bottomright"@ {
        Anchor::BottomRight
    } else if name == "cursor"@ {
        Anchor::Cursor
    } else {
        Anchor::Center
    }
}

/// The anchor that `s` names. Case is ignored and `-` reads as `_`; a name
/// that is none gives `Center`.
pub fn parse_anchor(s: &str) -> (r: Anchor)
    ensures
        r == anchor_of(replace_char(lowercase_of(s@), '-', '_')),
{
    let l = lowered(s);
    anchor_from_name(&replaced(&l, '-', '_'))
}

/// The anchor that a normalised name stands for.
pub fn anchor_from_name(name: &Vec<char>) -> (r: Anchor)
    ensures
        r == anchor_of(name@),
{
    if is_text(&name, "center") {
        Anchor::Center
    } else if is_text(&name, "top") {
        Anchor::Top
    } else if is_text(&name, "top_left") || is_text(&name, "topleft") {
        Anchor::TopLeft
    } else if is_text(&name, "top_right") || is_text(&name, "topright") {
        Anchor::TopRight
    } else if is_text(&name, "bottom") {
        Anchor::Bottom
    } else if is_text(&name, "bottom_left") || is_text(&name, "bottomleft") {
        Anchor::BottomLeft
    } else if is_text(&name, "bottom_right") || is_text(&name, "bottomright") {
        Anchor::BottomRight
    } else if is_text(&name, "cursor") {
        Anchor::Cursor
    } else {
        Anchor::Center
    }
}

/// The truth value that a lower-case word stands for, `default` for a word
/// that is neither a yes nor a no.
pub open spec fn bool_of(word: Seq<char>, default: bool) -> bool {
    if word == "true"@ || word == "yes"@ || word == "1"@ || word == "on"@ {
        true
    } else if word == "false"@ || word == "no"@ || word == "0"@ || word == "off"@ {
        false
    } else {
        default
    }
}

/// The truth value that `s` stands for, case ignored: `true`, `yes`, `1`
/// and `on` are true, `false`, `no`, `0` and `off` are false, anything else
/// is `default`.
pub fn parse_bool(s: &str, default: bool) -> (r: bool)
    ensures
        r == bool_of(lowercase_of(s@), default),
{
    bool_from_word(&lowered(s), default)
}

/// The truth value that a lower-case word stands for, or `default`.
pub fn bool_from_word(word: &Vec<char>, default: bool) -> (r: bool)
    ensures
        r == bool_of(word@, default),
{
    if is_text(&word, "true") || is_text(&word, "yes") || is_text(&word, "1") || is_text(
        &word,
        "on",
    ) {
        true
    } else if is_text(&word, "false") || is_text(&word, "no") || is_text(&word, "0") || is_text(
        &word,
        "off",
    ) {
        false
    } else {
        default
    }
}

/// What one line of a configuration file is.
pub enum Line {
    /// An empty line, a comment, or a line that is neither a section header
    /// nor a pair.
    Skipped,
    /// `[name]`: the name, trimmed and in lower case.
    Section(Seq<char>),
    /// `key = value`: the key, trimmed and in lower case, and the value,
    /// trimmed.
    Pair(Seq<char>, Seq<char>),
}

/// Reads one line. White space around the line is dropped first. An empty
/// line and one that starts with `#` are skipped; a line from `[` to `]` is
/// a section header; any other line with a `=` is a pair, split at the
/// first `=`.
pub open spec fn read_line(line: Seq<char>) -> Line {
    let t = trim(line);
    if t.len() == 0 || t[0] == '#' {
        Line::Skipped
    } else if t.len() >= 2 && t[0] == '[' && t.last() == ']' {
        Line::Section(lowercase_of(trim(t.subrange(1, t.len() - 1))))
    } else {
        let i = first_index(t, '=');
        if 0 <= i < t.len() {
            Line::Pair(lowercase_of(trim(t.take(i))), trim(t.skip(i + 1)))
        } else {
            Line::Skipped
        }
    }
}

/// The entries that `lines` give, read from top to bottom, each pair with
/// the section that the last header before it named; `section` is the
/// section in force at the first line.
pub open spec fn entries_of(lines: Seq<Seq<char>>, section: Seq<char>) -> Seq<
    (Seq<char>, Seq<char>, Seq<char>),
>
    decreases lines.len(),
{
    if lines.len() == 0 {
        Seq::empty()
    } else {
        match read_line(lines[0]) {
            Line::Skipped => entries_of(lines.drop_first(), section),
            Line::Section(name) => entries_of(lines.drop_first(), name),
            Line::Pair(key, value) => seq![(section, key, value)] + entries_of(
                lines.drop_first(),
                section,
            ),
        }
    }
}

/// The entries of a configuration file: section, key and value of each of
/// its pairs, in order. Lines end at `\n`; a `\r` before it is white space
/// and goes with the trimming.
pub open spec fn config_entries(content: Seq<char>) -> Seq<(Seq<char>, Seq<char>, Seq<char>)> {
    entries_of(split_char(content, '\n'), Seq::empty())
}

/// The views of the three strings of each entry.
pub open spec fn entry_views(entries: Seq<(String, String, String)>) -> Seq<
    (Seq<char>, Seq<char>, Seq<char>),
> {
    entries.map_values(|e: (String, String, String)| (e.0@, e.1@, e.2@))
}

/// Reads a configuration file: the section, key and value of each pair,
/// in order. Section names and keys come in lower case; a pair before the
/// first section header has the empty section.
pub fn parse_config_file(content: &str) -> (r: Vec<(String, String, String)>)
    ensures
        entry_views(r@) == config_entries(content@),
{
    let chars = to_chars(content);
    let lines = split_on(&chars, '\n');
    let mut results: Vec<(String, String, String)> = Vec::new();
    let mut section: Vec<char> = Vec::new();
    let mut i: usize = 0;
    proof {
        assert(views(lines@).skip(0) == views(lines@));
        assert(entry_views(results@) + config_entries(content@) == config_entries(content@));
    }
    while i < lines.len()
        invariant
            i <= lines.len(),
            views(lines@) == split_char(content@, '\n'),
            entry_views(results@) + entries_of(views(lines@).skip(i as int), section@)
                == config_entries(content@),
        decreases lines.len() - i,
    {
        let ghost rest = views(lines@).skip(i as int);
        proof {
            assert(rest[0] == lines@[i as int]@);
            assert(rest.drop_first() == views(lines@).skip(i + 1));
        }
        let t = trimmed(&lines[i]);
        let n = t.len();
        if n == 0 || t[0] == '#' {
        } else if n >= 2 && t[0] == '[' && t[n - 1] == ']' {
            let inner = slice_of(&t, 1, n - 1);
            section = lowered_chars(&trimmed(&inner));
        } else {
            let eq = find_char(&t, 0, '=');
            proof {
                assert(t@.skip(0) == t@);
            }
            if eq < n {
                let key = lowered_chars(&trimmed(&slice_of(&t, 0, eq)));
                let value = trimmed(&slice_of(&t, eq + 1, n));
                let entry = (from_chars(&section), from_chars(&key), from_chars(&value));
                proof {
                    assert(t@.subrange(0, eq as int) == t@.take(eq as int));
                    assert(t@.subrange(eq + 1, n as int) == t@.skip(eq + 1));
                    let e = (section@, key@, value@);
                    assert(entry_views(results@.push(entry)) == entry_views(results@).push(e));
                    assert(entry_views(results@).push(e) + entries_of(
                        rest.drop_first(),
                        section@,
                    ) == entry_views(results@) + (seq![e] + entries_of(
                        rest.drop_first(),
                        section@,
                    )));
                }
                results.push(entry);
            }
        }
        i += 1;
    }
    proof {
        assert(views(lines@).skip(lines.len() as int).len() == 0);
        assert(entry_views(results@) + Seq::<(Seq<char>, Seq<char>, Seq<char>)>::empty()
            == entry_views(results@));
    }
    results
}

/// The settings that both tools have: the window's size and place, the
/// theme, and the key bindings.
#[derive(Clone, Debug)]
pub struct ConfigBase {
    pub width: i32,
    pub height: i32,
    pub anchor: Anchor,
    pub margin_top: i32,
    pub margin_bottom: i32,
    pub margin_left: i32,
    pub margin_right: i32,
    pub theme: String,
    pub keybinds: KeybindTable,
}

/// The settings as mathematical values.
pub struct BaseView {
    pub width: int,
    pub height: int,
    pub anchor: Anchor,
    pub margin_top: int,
    pub margin_bottom: int,
    pub margin_left: int,
    pub margin_right: int,
    pub theme: Seq<char>,
    pub chords: Map<Action, Seq<KeyCombo>>,
}

impl View for ConfigBase {
    type V = BaseView;

    open spec fn view(&self) -> BaseView {
        BaseView {
            width: self.width as int,
            height: self.height as int,
            anchor: self.anchor,
            margin_top: self.margin_top as int,
            margin_bottom: self.margin_bottom as int,
            margin_left: self.margin_left as int,
            margin_right: self.margin_right as int,
            theme: self.theme@,
            chords: self.keybinds.bindings(),
        }
    }
}

/// The settings that hold where the configuration says nothing: a window
/// of the given size in the centre of the screen, no margins, the given
/// theme, and the default key bindings.
pub open spec fn default_base(theme: Seq<char>, width: int, height: int) -> BaseView {
    BaseView {
        width,
        height,
        anchor: Anchor::Center,
        margin_top: 0,
        margin_bottom: 0,
        margin_left: 0,
        margin_right: 0,
        theme,
        chords: default_bindings(),
    }
}

/// The value of an optional number, or `default` where there is none.
pub open spec fn int_or(v: Option<int>, default: int) -> int {
    match v {
        Some(n) => n,
        None => default,
    }
}

/// The settings after one entry of the configuration file.
///
/// In `window`, `width` and `height` take a number and keep their value
/// where the text is none; the four margins take a number, or 0; `anchor`
/// takes an anchor name. In `style`, `theme` takes a path, with `~/`
/// expanded. In `keybinds`, a key that names an action binds the chords of
/// the value to it, in place of those bound before, unless the value holds
/// no chord at all: then the action keeps what it had. Anything else
/// changes nothing.
pub open spec fn apply_entry(
    v: BaseView,
    section: Seq<char>,
    key: Seq<char>,
    value: Seq<char>,
    home: Option<Seq<char>>,
) -> BaseView {
    if section == "window"@ {
        if key == "width"@ {
            BaseView { width: int_or(decimal_i32(value), v.width), ..v }
        } else if key == "height"@ {
            BaseView { height: int_or(decimal_i32(value), v.height), ..v }
        } else if key == "anchor"@ {
            BaseView { anchor: anchor_of(replace_char(lowercase_of(value), '-', '_')), ..v }
        } else if key == "margin_top"@ {
            BaseView { margin_top: int_or(decimal_i32(value), 0), ..v }
        } else if key == "margin_bottom"@ {
            BaseView { margin_bottom: int_or(decimal_i32(value), 0), ..v }
        } else if key == "margin_left"@ {
            BaseView { margin_left: int_or(decimal_i32(value), 0), ..v }
        } else if key == "margin_right"@ {
            BaseView { margin_right: int_or(decimal_i32(value), 0), ..v }
        } else {
            v
        }
    } else if section == "style"@ {
        if key == "theme"@ {
            BaseView { theme: expanded(value, home), ..v }
        } else {
            v
        }
    } else if section == "keybinds"@ {
        match action_of(key) {
            Some(action) => {
                let combos = combos_of(split_whitespace(value));
                if combos.len() > 0 {
                    BaseView { chords: v.chords.insert(action, combos), ..v }
                } else {
                    v
                }
            },
            None => v,
        }
    } else {
        v
    }
}

/// The view of an optional string.
pub open spec fn opt_view(s: Option<&str>) -> Option<Seq<char>> {
    match s {
        Some(h) => Some(h@),
        None => None,
    }
}

fn number_or(val: &str, default: i32) -> (r: i32)
    ensures
        r == int_or(decimal_i32(val@), default as int),
{
    match parse_i32(&to_chars(val)) {
        Some(v) => v,
        None => default,
    }
}

impl ConfigBase {
    /// The settings that hold where the configuration says nothing: a
    /// window of the given size in the centre of the screen, no margins,
    /// the given theme, and the default key bindings.
    pub fn new(theme: String, width: i32, height: i32) -> (r: Self)
        ensures
            r@ == default_base(theme@, width as int, height as int),
    {
        let keybinds = default_keybinds();
        assert(keybinds.bindings() =~= default_bindings());
        ConfigBase {
            width,
            height,
            anchor: Anchor::Center,
            margin_top: 0,
            margin_bottom: 0,
            margin_left: 0,
            margin_right: 0,
            theme,
            keybinds,
        }
    }

    /// Applies one entry of the configuration file: section, key and
    /// value. `home` is the home directory, for a theme path that starts
    /// with `~/`.
    pub fn parse_section(&mut self, section: &str, key: &str, val: &str, home: Option<&str>)
        ensures
            final(self)@ == apply_entry(old(self)@, section@, key@, val@, opt_view(home)),
    {
        let s = to_chars(section);
        let k = to_chars(key);
        if is_text(&s, "window") {
            if is_text(&k, "width") {
                self.width = number_or(val, self.width);
            } else if is_text(&k, "height") {
                self.height = number_or(val, self.height);
            } else if is_text(&k, "anchor") {
                self.anchor = parse_anchor(val);
            } else if is_text(&k, "margin_top") {
                self.margin_top = number_or(val, 0);
            } else if is_text(&k, "margin_bottom") {
                self.margin_bottom = number_or(val, 0);
            } else if is_text(&k, "margin_left") {
                self.margin_left = number_or(val, 0);
            } else if is_text(&k, "margin_right") {
                self.margin_right = number_or(val, 0);
            }
        } else if is_text(&s, "style") {
            if is_text(&k, "theme") {
                self.theme = shellexpand(val, home);
            }
        } else if is_text(&s, "keybinds") {
            match parse_action(key) {
                Some(action) => {
                    let combos = parse_key_combos(val);
                    if combos.len() > 0 {
                        self.keybinds.insert(action, combos);
                        assert(self.keybinds.bindings() =~= old(self).keybinds.bindings().insert(
                            action,
                            combos@,
                        ));
                    }
                },
                None => {},
            }
        }
    }
}

} // verus!
