//! The settings of the application launcher.

use crate::common::config::{
    apply_entry, bool_of, config_entries, default_base, entry_views, opt_view, parse_bool,
    parse_config_file, BaseView, ConfigBase,
};
use crate::text::{is_text, lowercase_of, to_chars};
use vstd::prelude::*;
use vstd::string::StringExecFns;

verus! {

/// The name of the tool: that of its configuration directory and of its
/// pidfile.
pub const APP_NAME: &'static str = "launch-gui";

/// The width of the window where the configuration gives none.
pub const DEFAULT_WIDTH: i32 = 580;

/// The height of the window where the configuration gives none.
pub const DEFAULT_HEIGHT: i32 = 400;

/// The terminal emulator where the configuration gives none.
pub const DEFAULT_TERMINAL: &'static str = "kitty";

/// The configuration file that `--generate-config` writes. Every value in
/// it is the default.
pub const DEFAULT_CONFIG: &'static str = "# launch-gui configuration
# Lines that start with '#' are comments.

[window]
width = 580
height = 400
# center, top, top-left, top-right, bottom, bottom-left, bottom-right, cursor
anchor = center
margin_top = 0
margin_bottom = 0
margin_left = 0
margin_right = 0

[style]
# A path to a stylesheet, or the name of a built-in theme.
# theme = ~/.config/launch-gui/style.css

[behavior]
# The terminal emulator for applications that need one.
terminal = kitty
# A query that starts with '=' is evaluated as arithmetic.
calculator = true
vim_mode = false

[keybinds]
# One or more chords for each action, separated by spaces.
# select = Return
# clear_search = ctrl+u
# close = Escape
# next = Down Tab
# prev = Up shift+Tab
# page_down = Page_Down
# page_up = Page_Up
# first = Home
# last = End
";

/// The stylesheet that `--generate-config` writes.
pub const DEFAULT_CSS: &'static str = "window,
window.background {
  background-color: transparent;
}
.launch-container {
  background-color: #1e1e2e;
  color: #cdd6f4;
  border: 1px solid #313244;
  border-radius: 12px;
}
.launch-search-wrapper {
  padding: 12px 14px 4px 14px;
}
.launch-container.collapsed .launch-search-wrapper {
  padding: 12px 14px;
}
.launch-search {
  background-color: #313244;
  color: #cdd6f4;
  caret-color: #cba6f7;
  border-radius: 8px;
  padding: 6px 10px;
}
.launch-esc-badge, .launch-status-key {
  background-color: #313244;
  color: #cba6f7;
  border-radius: 4px;
  padding: 1px 6px;
  font-size: 11px;
}
.launch-hint-text, .launch-status-hint, .launch-section-label {
  color: #7f849c;
  font-size: 11px;
}
.launch-list {
  background-color: transparent;
}
.launch-list row {
  padding: 8px 14px;
  border-radius: 8px;
}
.launch-list row:selected {
  background-color: #313244;
}
.launch-status-bar {
  padding: 6px 14px;
  border-top: 1px solid #313244;
}
.vim-mode-indicator {
  font-weight: bold;
  margin-right: 10px;
}
.vim-mode-normal { color: #cba6f7; }
.vim-mode-insert { color: #a6e3a1; }
";

/// The default configuration file, as text.
pub fn default_config() -> (r: &'static str)
    ensures
        r@ == DEFAULT_CONFIG@,
{
    DEFAULT_CONFIG
}

/// The default stylesheet, as text.
pub fn default_css() -> (r: &'static str)
    ensures
        r@ == DEFAULT_CSS@,
{
    DEFAULT_CSS
}

/// The settings of the application launcher.
#[derive(Clone, Debug)]
pub struct Config {
    pub base: ConfigBase,
    pub terminal: String,
    pub calculator: bool,
    pub vim_mode: bool,
}

/// The settings as mathematical values.
pub struct ConfigView {
    pub base: BaseView,
    pub terminal: Seq<char>,
    pub calculator: bool,
    pub vim_mode: bool,
}

impl View for Config {
    type V = ConfigView;

    open spec fn view(&self) -> ConfigView {
        ConfigView {
            base: self.base@,
            terminal: self.terminal@,
            calculator: self.calculator,
            vim_mode: self.vim_mode,
        }
    }
}

/// The settings that hold where the configuration says nothing: a window
/// of 580 by 400, the terminal `kitty`, the calculator on and no modal
/// input.
pub open spec fn default_view(theme: Seq<char>) -> ConfigView {
    ConfigView {
        base: default_base(theme, DEFAULT_WIDTH as int, DEFAULT_HEIGHT as int),
        terminal: DEFAULT_TERMINAL@,
        calculator: true,
        vim_mode: false,
    }
}

/// The settings after one entry of the configuration file: the shared
/// settings take the entry first; in `behavior`, `terminal` takes the value
/// as it stands, and `calculator` and `vim_mode` take a truth value, or
/// their default.
pub open spec fn with_entry(
    v: ConfigView,
    section: Seq<char>,
    key: Seq<char>,
    value: Seq<char>,
    home: Option<Seq<char>>,
) -> ConfigView {
    let w = ConfigView { base: apply_entry(v.base, section, key, value, home), ..v };
    if section == "behavior"@ {
        if key == "terminal"@ {
            ConfigView { terminal: value, ..w }
        } else if key == "calculator"@ {
            ConfigView { calculator: bool_of(lowercase_of(value), true), ..w }
        } else if key == "vim_mode"@ {
            ConfigView { vim_mode: bool_of(lowercase_of(value), false), ..w }
        } else {
            w
        }
    } else {
        w
    }
}

/// The settings after all of `entries`, applied in order.
pub open spec fn with_entries(
    v: ConfigView,
    entries: Seq<(Seq<char>, Seq<char>, Seq<char>)>,
    home: Option<Seq<char>>,
) -> ConfigView
    decreases entries.len(),
{
    if entries.len() == 0 {
        v
    } else {
        let e = entries[0];
        with_entries(with_entry(v, e.0, e.1, e.2, home), entries.drop_first(), home)
    }
}

impl Config {
    /// The settings that hold where the configuration says nothing.
    /// `theme` is the path of the stylesheet in the configuration
    /// directory.
    pub fn default(theme: String) -> (r: Self)
        ensures
            r@ == default_view(theme@),
    {
        Config {
            base: ConfigBase::new(theme, DEFAULT_WIDTH, DEFAULT_HEIGHT),
            terminal: String::from_str(DEFAULT_TERMINAL),
            calculator: true,
            vim_mode: false,
        }
    }

    /// Applies one entry of the configuration file.
    pub fn apply(&mut self, section: &str, key: &str, val: &str, home: Option<&str>)
        ensures
            final(self)@ == with_entry(old(self)@, section@, key@, val@, opt_view(home)),
    {
        self.base.parse_section(section, key, val, home);
        let s = to_chars(section);
        let k = to_chars(key);
        if is_text(&s, "behavior") {
            if is_text(&k, "terminal") {
                self.terminal = String::from_str(val);
            } else if is_text(&k, "calculator") {
                self.calculator = parse_bool(val, true);
            } else if is_text(&k, "vim_mode") {
                self.vim_mode = parse_bool(val, false);
            }
        }
    }

    /// The settings that a configuration file gives: the defaults, changed
    /// by each entry of the file in order. `theme` is the default theme
    /// path and `home` the home directory.
    pub fn parse(content: &str, theme: String, home: Option<&str>) -> (r: Self)
        ensures
            r@ == with_entries(default_view(theme@), config_entries(content@), opt_view(home)),
    {
        let mut cfg = Config::default(theme);
        let entries = parse_config_file(content);
        let ghost all = entry_views(entries@);
        let ghost start = cfg@;
        let mut i: usize = 0;
        proof {
            assert(all.skip(0) == all);
        }
        while i < entries.len()
            invariant
                i <= entries.len(),
                all == entry_views(entries@),
                with_entries(cfg@, all.skip(i as int), opt_view(home)) == with_entries(
                    start,
                    all,
                    opt_view(home),
                ),
            decreases entries.len() - i,
        {
            proof {
                let rest = all.skip(i as int);
                assert(rest[0] == (
                    entries@[i as int].0@,
                    entries@[i as int].1@,
                    entries@[i as int].2@,
                ));
                assert(rest.drop_first() == all.skip(i + 1));
            }
            cfg.apply(
                entries[i].0.as_str(),
                entries[i].1.as_str(),
                entries[i].2.as_str(),
                home,
            );
            i += 1;
        }
        cfg
    }
}

} // verus!
