use popup_core::cliphist::config::{
    default_config as clip_default_config, default_css as clip_default_css,
    Config as ClipConfig, APP_NAME as CLIP_APP_NAME,
};
use popup_core::common::config::{
    parse_anchor, parse_bool, parse_config_file, parse_easing, Anchor, ConfigBase, Easing,
};
use popup_core::common::keys::{
    default_keybinds, Action, KeyCombo, CONTROL_MASK, KEY_RETURN, KEY_SPACE,
};
use popup_core::launcher::config::{
    default_config as launch_default_config, default_css as launch_default_css,
    Config as LaunchConfig, APP_NAME as LAUNCH_APP_NAME,
};

fn entry(section: &str, key: &str, value: &str) -> (String, String, String) {
    (section.to_string(), key.to_string(), value.to_string())
}

const THEME: &str = "/home/u/.config/tool/style.css";

#[test]
fn parse_bool_words() {
    for yes in ["true", "yes", "1", "on", "TRUE", "Yes", "On"] {
        assert!(parse_bool(yes, false));
        assert!(parse_bool(yes, true));
    }
    for no in ["false", "no", "0", "off", "FALSE", "No", "OFF"] {
        assert!(!parse_bool(no, false));
        assert!(!parse_bool(no, true));
    }
    for other in ["", "2", "y", "enabled", " true", "true "] {
        assert!(parse_bool(other, true));
        assert!(!parse_bool(other, false));
    }
}

#[test]
fn parse_easing_names() {
    assert_eq!(parse_easing("linear"), Easing::Linear);
    assert_eq!(parse_easing("ease_in"), Easing::EaseIn);
    assert_eq!(parse_easing("ease-in"), Easing::EaseIn);
    assert_eq!(parse_easing("EaseIn"), Easing::EaseIn);
    assert_eq!(parse_easing("ease_out"), Easing::EaseOut);
    assert_eq!(parse_easing("easeout"), Easing::EaseOut);
    assert_eq!(parse_easing("ease-in-out"), Easing::EaseInOut);
    assert_eq!(parse_easing("EASEINOUT"), Easing::EaseInOut);
    assert_eq!(parse_easing("Bounce"), Easing::Bounce);
    assert_eq!(parse_easing(""), Easing::EaseOut);
    assert_eq!(parse_easing("elastic"), Easing::EaseOut);
    assert_eq!(Easing::default(), Easing::EaseOut);
}

#[test]
fn parse_anchor_names() {
    assert_eq!(parse_anchor("center"), Anchor::Center);
    assert_eq!(parse_anchor("Top"), Anchor::Top);
    assert_eq!(parse_anchor("top-left"), Anchor::TopLeft);
    assert_eq!(parse_anchor("topleft"), Anchor::TopLeft);
    assert_eq!(parse_anchor("TOP_RIGHT"), Anchor::TopRight);
    assert_eq!(parse_anchor("topright"), Anchor::TopRight);
    assert_eq!(parse_anchor("bottom"), Anchor::Bottom);
    assert_eq!(parse_anchor("bottom-left"), Anchor::BottomLeft);
    assert_eq!(parse_anchor("bottomleft"), Anchor::BottomLeft);
    assert_eq!(parse_anchor("bottom_right"), Anchor::BottomRight);
    assert_eq!(parse_anchor("BottomRight"), Anchor::BottomRight);
    assert_eq!(parse_anchor("cursor"), Anchor::Cursor);
    assert_eq!(parse_anchor("middle"), Anchor::Center);
    assert_eq!(parse_anchor(""), Anchor::Center);
}

#[test]
fn config_file_sections_and_pairs() {
    let content = "\
# a comment
top = level

[Window]
Width = 600
  height=  400  

[ Style ]
theme = ~/my theme.css
# theme = other
[behavior]
terminal = foot -e = x
";
    assert_eq!(
        parse_config_file(content),
        vec![
            entry("", "top", "level"),
            entry("window", "width", "600"),
            entry("window", "height", "400"),
            entry("style", "theme", "~/my theme.css"),
            entry("behavior", "terminal", "foot -e = x"),
        ]
    );
}

#[test]
fn config_file_skips_what_is_no_pair() {
    assert_eq!(parse_config_file(""), vec![]);
    assert_eq!(parse_config_file("\n\n   \n"), vec![]);
    assert_eq!(parse_config_file("no pair here\n[s]\nnor here"), vec![]);
    assert_eq!(parse_config_file("[only a header]"), vec![]);
    assert_eq!(parse_config_file("   # indented comment = 1"), vec![]);
}

#[test]
fn config_file_edge_lines() {
    // a line that starts with [ but does not end with ] is a pair if it has =
    assert_eq!(parse_config_file("[a]=b"), vec![entry("", "[a]", "b")]);
    // an empty header and empty keys and values
    assert_eq!(parse_config_file("[]\n=\n"), vec![entry("", "", "")]);
    assert_eq!(parse_config_file("[S]\r\nKey = Value\r\n"), vec![entry("s", "key", "Value")]);
    assert_eq!(parse_config_file("[a]\n[b]\nk=v"), vec![entry("b", "k", "v")]);
    assert_eq!(parse_config_file("k=v\nk=w"), vec![entry("", "k", "v"), entry("", "k", "w")]);
}

#[test]
fn base_defaults() {
    let base = ConfigBase::new(THEME.to_string(), 580, 520);
    assert_eq!(base.width, 580);
    assert_eq!(base.height, 520);
    assert_eq!(base.anchor, Anchor::Center);
    assert_eq!(
        (base.margin_top, base.margin_bottom, base.margin_left, base.margin_right),
        (0, 0, 0, 0)
    );
    assert_eq!(base.theme, THEME);
    assert_eq!(base.keybinds.select, default_keybinds().select);
    assert_eq!(base.keybinds.prev, default_keybinds().prev);
}

#[test]
fn base_window_keys() {
    let mut base = ConfigBase::new(THEME.to_string(), 580, 520);
    base.parse_section("window", "width", "640", None);
    base.parse_section("window", "height", "-3", None);
    base.parse_section("window", "anchor", "top-right", None);
    base.parse_section("window", "margin_top", "10", None);
    base.parse_section("window", "margin_bottom", "+20", None);
    base.parse_section("window", "margin_left", "30", None);
    base.parse_section("window", "margin_right", "40", None);
    assert_eq!((base.width, base.height), (640, -3));
    assert_eq!(base.anchor, Anchor::TopRight);
    assert_eq!(
        (base.margin_top, base.margin_bottom, base.margin_left, base.margin_right),
        (10, 20, 30, 40)
    );
}

#[test]
fn base_window_keys_without_a_number() {
    let mut base = ConfigBase::new(THEME.to_string(), 580, 520);
    base.parse_section("window", "margin_top", "10", None);
    // size keeps its value, a margin falls back to 0
    base.parse_section("window", "width", "wide", None);
    base.parse_section("window", "height", "", None);
    base.parse_section("window", "margin_top", "1.5", None);
    assert_eq!((base.width, base.height, base.margin_top), (580, 520, 0));
    base.parse_section("window", "width", "2147483647", None);
    assert_eq!(base.width, i32::MAX);
    base.parse_section("window", "width", "2147483648", None);
    assert_eq!(base.width, i32::MAX);
    base.parse_section("window", "width", "-2147483648", None);
    assert_eq!(base.width, i32::MIN);
    base.parse_section("window", "width", "12 ", None);
    assert_eq!(base.width, i32::MIN);
}

#[test]
fn base_ignores_unknown_sections_and_keys() {
    let mut base = ConfigBase::new(THEME.to_string(), 580, 520);
    base.parse_section("window", "depth", "3", None);
    base.parse_section("Window", "width", "3", None);
    base.parse_section("style", "font", "x", None);
    base.parse_section("other", "width", "3", None);
    base.parse_section("keybinds", "jump", "Return", None);
    assert_eq!(base.width, 580);
    assert_eq!(base.theme, THEME);
    assert_eq!(base.keybinds.select, default_keybinds().select);
}

#[test]
fn base_theme_expands_the_home_directory() {
    let mut base = ConfigBase::new(THEME.to_string(), 580, 520);
    base.parse_section("style", "theme", "~/themes/a.css", Some("/home/u"));
    assert_eq!(base.theme, "/home/u/themes/a.css");
    base.parse_section("style", "theme", "~/themes/a.css", None);
    assert_eq!(base.theme, "~/themes/a.css");
    base.parse_section("style", "theme", "/abs/b.css", Some("/home/u"));
    assert_eq!(base.theme, "/abs/b.css");
    base.parse_section("style", "theme", "dracula", Some("/home/u"));
    assert_eq!(base.theme, "dracula");
    base.parse_section("style", "theme", "~", Some("/home/u"));
    assert_eq!(base.theme, "~");
}

#[test]
fn base_keybinds_override_one_action() {
    let mut base = ConfigBase::new(THEME.to_string(), 580, 520);
    base.parse_section("keybinds", "select", "space ctrl+Return", None);
    assert_eq!(
        base.keybinds.select,
        vec![
            KeyCombo { key: KEY_SPACE, mods: 0 },
            KeyCombo { key: KEY_RETURN, mods: CONTROL_MASK },
        ]
    );
    assert_eq!(base.keybinds.get(Action::Close), default_keybinds().get(Action::Close));
    assert_eq!(base.keybinds.get(Action::Next), default_keybinds().get(Action::Next));
}

#[test]
fn base_keybinds_without_a_chord_keep_the_default() {
    let mut base = ConfigBase::new(THEME.to_string(), 580, 520);
    base.parse_section("keybinds", "select", "nosuchkey F77", None);
    assert_eq!(base.keybinds.select, default_keybinds().select);
    base.parse_section("keybinds", "select", "", None);
    assert_eq!(base.keybinds.select, default_keybinds().select);
    // one good chord among bad ones is enough
    base.parse_section("keybinds", "select", "nosuchkey space", None);
    assert_eq!(base.keybinds.select, vec![KeyCombo { key: KEY_SPACE, mods: 0 }]);
}

#[test]
fn clip_config_defaults() {
    assert_eq!(CLIP_APP_NAME, "cliphist-gui");
    let cfg = ClipConfig::default(THEME.to_string());
    assert_eq!((cfg.base.width, cfg.base.height), (580, 520));
    assert_eq!(cfg.max_items, 0);
    assert!(cfg.close_on_select);
    assert!(!cfg.notify_on_copy);
    assert!(!cfg.vim_mode);
}

#[test]
fn clip_config_from_a_file() {
    let content = "\
[window]
width = 700
anchor = cursor
[behavior]
max_items = 25
close_on_select = no
notify_on_copy = yes
vim_mode = on
[keybinds]
delete = ctrl+d
";
    let cfg = ClipConfig::parse(content, THEME.to_string(), Some("/home/u"));
    assert_eq!((cfg.base.width, cfg.base.height), (700, 520));
    assert_eq!(cfg.base.anchor, Anchor::Cursor);
    assert_eq!(cfg.max_items, 25);
    assert!(!cfg.close_on_select);
    assert!(cfg.notify_on_copy);
    assert!(cfg.vim_mode);
    assert_eq!(cfg.base.keybinds.delete, vec![KeyCombo { key: 'd' as u32, mods: CONTROL_MASK }]);
    assert_eq!(cfg.base.theme, THEME);
}

#[test]
fn clip_config_bad_values_fall_back() {
    let content = "[behavior]\nmax_items = -1\nclose_on_select = maybe\nvim_mode = maybe\n";
    let cfg = ClipConfig::parse(content, THEME.to_string(), None);
    assert_eq!(cfg.max_items, 0);
    assert!(cfg.close_on_select);
    assert!(!cfg.vim_mode);
    let cfg = ClipConfig::parse("[behavior]\nmax_items = +12\n", THEME.to_string(), None);
    assert_eq!(cfg.max_items, 12);
    let cfg = ClipConfig::parse(
        "[behavior]\nmax_items = 99999999999999999999999\n",
        THEME.to_string(),
        None,
    );
    assert_eq!(cfg.max_items, 0);
}

#[test]
fn clip_config_later_entries_win() {
    let cfg = ClipConfig::parse(
        "[window]\nwidth = 1\n[behavior]\nvim_mode = on\n[window]\nwidth = 2\n",
        THEME.to_string(),
        None,
    );
    assert_eq!(cfg.base.width, 2);
    assert!(cfg.vim_mode);
}

#[test]
fn clip_default_config_gives_the_defaults() {
    let parsed = ClipConfig::parse(clip_default_config(), THEME.to_string(), Some("/home/u"));
    let default = ClipConfig::default(THEME.to_string());
    assert_eq!(parsed.base.width, default.base.width);
    assert_eq!(parsed.base.height, default.base.height);
    assert_eq!(parsed.base.anchor, default.base.anchor);
    assert_eq!(parsed.base.margin_top, default.base.margin_top);
    assert_eq!(parsed.base.theme, default.base.theme);
    assert_eq!(parsed.max_items, default.max_items);
    assert_eq!(parsed.close_on_select, default.close_on_select);
    assert_eq!(parsed.notify_on_copy, default.notify_on_copy);
    assert_eq!(parsed.vim_mode, default.vim_mode);
    for action in [Action::Select, Action::Delete, Action::Close, Action::Prev, Action::Last] {
        assert_eq!(parsed.base.keybinds.get(action), default.base.keybinds.get(action));
    }
    assert!(clip_default_css().contains(".clip-container"));
}

#[test]
fn launch_config_defaults_and_file() {
    assert_eq!(LAUNCH_APP_NAME, "launch-gui");
    let cfg = LaunchConfig::default(THEME.to_string());
    assert_eq!((cfg.base.width, cfg.base.height), (580, 400));
    assert_eq!(cfg.terminal, "kitty");
    assert!(cfg.calculator);
    assert!(!cfg.vim_mode);
    let content = "[behavior]\nterminal = foot --hold\ncalculator = off\nvim_mode = 1\n\
                   [window]\nheight = 300\n";
    let cfg = LaunchConfig::parse(content, THEME.to_string(), None);
    assert_eq!(cfg.terminal, "foot --hold");
    assert!(!cfg.calculator);
    assert!(cfg.vim_mode);
    assert_eq!(cfg.base.height, 300);
}

#[test]
fn launch_default_config_gives_the_defaults() {
    let parsed = LaunchConfig::parse(launch_default_config(), THEME.to_string(), None);
    let default = LaunchConfig::default(THEME.to_string());
    assert_eq!(parsed.base.width, default.base.width);
    assert_eq!(parsed.base.height, default.base.height);
    assert_eq!(parsed.base.theme, default.base.theme);
    assert_eq!(parsed.terminal, default.terminal);
    assert_eq!(parsed.calculator, default.calculator);
    assert_eq!(parsed.vim_mode, default.vim_mode);
    assert_eq!(parsed.base.keybinds.get(Action::Select), default.base.keybinds.get(Action::Select));
    assert!(launch_default_css().contains(".launch-container"));
}
