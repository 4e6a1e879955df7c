//! Paths in configuration values, and the themes that come with the
//! tools.

use crate::text::{
    append_chars, from_chars, is_text, matches_at, split_char, split_on, starts_with, to_chars,
    views,
};
use vstd::prelude::*;
use vstd::string::StringExecFns;

verus! {

/// `s` with a leading `~/` replaced by the home directory and `/`, where
/// a home directory is known; else `s`.
pub open spec fn expanded(s: Seq<char>, home: Option<Seq<char>>) -> Seq<char> {
    match home {
        Some(h) => if seq!['~', '/'].is_prefix_of(s) {
            h + seq!['/'] + s.skip(2)
        } else {
            s
        },
        None => s,
    }
}

/// Expands a leading `~/` of a path to the home directory `home`. A path
/// without it, and any path where no home directory is known, stays as it
/// is.
pub fn shellexpand(s: &str, home: Option<&str>) -> (r: String)
    ensures
        r@ == expanded(
            s@,
            match home {
                Some(h) => Some(h@),
                None => None,
            },
        ),
{
    let chars = to_chars(s);
    let mut tilde: Vec<char> = Vec::new();
    tilde.push('~');
    tilde.push('/');
    assert(tilde@ == seq!['~', '/']);
    match home {
        Some(h) => {
            if starts_with(&chars, &tilde) {
                let mut out = to_chars(h);
                out.push('/');
                let ghost head = out@;
                let mut i: usize = 2;
                assert(chars@.subrange(2, 2) == Seq::<char>::empty());
                while i < chars.len()
                    invariant
                        2 <= i <= chars.len(),
                        out@ == head + chars@.subrange(2, i as int),
                    decreases chars.len() - i,
                {
                    out.push(chars[i]);
                    assert(chars@.subrange(2, i + 1) == chars@.subrange(2, i as int).push(
                        chars@[i as int],
                    ));
                    i += 1;
                }
                assert(chars@.subrange(2, chars.len() as int) == chars@.skip(2));
                from_chars(&out)
            } else {
                from_chars(&chars)
            }
        },
        None => from_chars(&chars),
    }
}

/// The rules that every built-in theme starts with: they make the window
/// itself transparent, so that the theme's own shapes show.
pub const TRANSPARENCY: &'static str = "window,
window.background {
  background-color: transparent;
  background: transparent;
}
.background {
  background-color: transparent;
}
headerbar,
.titlebar {
  background-color: transparent;
  background: transparent;
}
";

/// The rules of the theme `dracula`.
pub const THEME_DRACULA: &'static str = "@define-color surface #282a36;
@define-color raised #44475a;
@define-color text #f8f8f2;
@define-color muted #6272a4;
@define-color accent #bd93f9;
@define-color mark #50fa7b;
.clip-container, .launch-container {
  background-color: @surface;
  color: @text;
  border: 1px solid @raised;
  border-radius: 12px;
}
.clip-search, .launch-search {
  background-color: @raised;
  color: @text;
  caret-color: @accent;
}
.clip-list row:selected, .launch-list row:selected {
  background-color: @raised;
  color: @accent;
}
.clip-subtitle, .clip-hint-text, .launch-hint-text, .clip-status-hint, .launch-status-hint {
  color: @muted;
}
.clip-badge, .clip-status-key, .launch-status-key, .clip-esc-badge, .launch-esc-badge {
  background-color: @raised;
  color: @accent;
}
.vim-mode-normal { color: @accent; }
.vim-mode-insert { color: @mark; }
";

/// The rules of the theme `catppuccin`.
pub const THEME_CATPPUCCIN: &'static str = "@define-color surface #1e1e2e;
@define-color raised #313244;
@define-color text #cdd6f4;
@define-color muted #7f849c;
@define-color accent #cba6f7;
@define-color mark #a6e3a1;
.clip-container, .launch-container {
  background-color: @surface;
  color: @text;
  border: 1px solid @raised;
  border-radius: 12px;
}
.clip-search, .launch-search {
  background-color: @raised;
  color: @text;
  caret-color: @accent;
}
.clip-list row:selected, .launch-list row:selected {
  background-color: @raised;
  color: @accent;
}
.clip-subtitle, .clip-hint-text, .launch-hint-text, .clip-status-hint, .launch-status-hint {
  color: @muted;
}
.clip-badge, .clip-status-key, .launch-status-key, .clip-esc-badge, .launch-esc-badge {
  background-color: @raised;
  color: @accent;
}
.vim-mode-normal { color: @accent; }
.vim-mode-insert { color: @mark; }
";

/// The rules of the theme `onedark`.
pub const THEME_ONEDARK: &'static str = "@define-color surface #282c34;
@define-color raised #3e4451;
@define-color text #abb2bf;
@define-color muted #5c6370;
@define-color accent #61afef;
@define-color mark #98c379;
.clip-container, .launch-container {
  background-color: @surface;
  color: @text;
  border: 1px solid @raised;
  border-radius: 12px;
}
.clip-search, .launch-search {
  background-color: @raised;
  color: @text;
  caret-color: @accent;
}
.clip-list row:selected, .launch-list row:selected {
  background-color: @raised;
  color: @accent;
}
.clip-subtitle, .clip-hint-text, .launch-hint-text, .clip-status-hint, .launch-status-hint {
  color: @muted;
}
.clip-badge, .clip-status-key, .launch-status-key, .clip-esc-badge, .launch-esc-badge {
  background-color: @raised;
  color: @accent;
}
.vim-mode-normal { color: @accent; }
.vim-mode-insert { color: @mark; }
";

/// The rules of the theme `monokai`.
pub const THEME_MONOKAI: &'static str = "@define-color surface #272822;
@define-color raised #3e3d32;
@define-color text #f8f8f2;
@define-color muted #75715e;
@define-color accent #f92672;
@define-color mark #a6e22e;
.clip-container, .launch-container {
  background-color: @surface;
  color: @text;
  border: 1px solid @raised;
  border-radius: 12px;
}
.clip-search, .launch-search {
  background-color: @raised;
  color: @text;
  caret-color: @accent;
}
.clip-list row:selected, .launch-list row:selected {
  background-color: @raised;
  color: @accent;
}
.clip-subtitle, .clip-hint-text, .launch-hint-text, .clip-status-hint, .launch-status-hint {
  color: @muted;
}
.clip-badge, .clip-status-key, .launch-status-key, .clip-esc-badge, .launch-esc-badge {
  background-color: @raised;
  color: @accent;
}
.vim-mode-normal { color: @accent; }
.vim-mode-insert { color: @mark; }
";

/// The rules of the theme `material-3`.
pub const THEME_MATERIAL_3: &'static str = "@define-color surface #1c1b1f;
@define-color raised #49454f;
@define-color text #e6e1e5;
@define-color muted #938f99;
@define-color accent #d0bcff;
@define-color mark #b5ccba;
.clip-container, .launch-container {
  background-color: @surface;
  color: @text;
  border: 1px solid @raised;
  border-radius: 28px;
}
.clip-search, .launch-search {
  background-color: @raised;
  color: @text;
  caret-color: @accent;
  border-radius: 28px;
}
.clip-list row:selected, .launch-list row:selected {
  background-color: @raised;
  color: @accent;
  border-radius: 16px;
}
.clip-subtitle, .clip-hint-text, .launch-hint-text, .clip-status-hint, .launch-status-hint {
  color: @muted;
}
.clip-badge, .clip-status-key, .launch-status-key, .clip-esc-badge, .launch-esc-badge {
  background-color: @raised;
  color: @accent;
}
.vim-mode-normal { color: @accent; }
.vim-mode-insert { color: @mark; }
";

/// The rules of the theme `material-you`.
pub const THEME_MATERIAL_YOU: &'static str = "@define-color surface #fffbfe;
@define-color raised #e7e0ec;
@define-color text #1c1b1f;
@define-color muted #79747e;
@define-color accent #6750a4;
@define-color mark #386a20;
.clip-container, .launch-container {
  background-color: @surface;
  color: @text;
  border: 1px solid @raised;
  border-radius: 28px;
}
.clip-search, .launch-search {
  background-color: @raised;
  color: @text;
  caret-color: @accent;
  border-radius: 28px;
}
.clip-list row:selected, .launch-list row:selected {
  background-color: @raised;
  color: @accent;
  border-radius: 16px;
}
.clip-subtitle, .clip-hint-text, .launch-hint-text, .clip-status-hint, .launch-status-hint {
  color: @muted;
}
.clip-badge, .clip-status-key, .launch-status-key, .clip-esc-badge, .launch-esc-badge {
  background-color: @raised;
  color: @accent;
}
.vim-mode-normal { color: @accent; }
.vim-mode-insert { color: @mark; }
";

/// The stylesheet of the built-in theme with this name.
pub open spec fn theme_sheet(name: Seq<char>) -> Option<Seq<char>> {
    if name == "dracula"@ {
        Some(THEME_DRACULA@)
    } else if name == "catppuccin"@ {
        Some(THEME_CATPPUCCIN@)
    } else if name == "onedark"@ {
        Some(THEME_ONEDARK@)
    } else if name == "monokai"@ {
        Some(THEME_MONOKAI@)
    } else if name == "material-3"@ {
        Some(THEME_MATERIAL_3@)
    } else if name == "material-you"@ {
        Some(THEME_MATERIAL_YOU@)
    } else {
        None
    }
}

/// The built-in themes, each with its name and its stylesheet.
pub fn builtin_themes() -> (r: Vec<(&'static str, &'static str)>)
    ensures
        r@.len() == 6,
        r@[0] == ("dracula", THEME_DRACULA),
        r@[1] == ("catppuccin", THEME_CATPPUCCIN),
        r@[2] == ("onedark", THEME_ONEDARK),
        r@[3] == ("monokai", THEME_MONOKAI),
        r@[4] == ("material-3", THEME_MATERIAL_3),
        r@[5] == ("material-you", THEME_MATERIAL_YOU),
{
    let mut v: Vec<(&'static str, &'static str)> = Vec::new();
    v.push(("dracula", THEME_DRACULA));
    v.push(("catppuccin", THEME_CATPPUCCIN));
    v.push(("onedark", THEME_ONEDARK));
    v.push(("monokai", THEME_MONOKAI));
    v.push(("material-3", THEME_MATERIAL_3));
    v.push(("material-you", THEME_MATERIAL_YOU));
    v
}

/// The full stylesheet of a built-in theme: the transparency rules, a
/// line feed, and the theme's own rules. `None` for a name that is no
/// built-in theme.
pub fn get_theme_css(name: &str) -> (r: Option<String>)
    ensures
        match r {
            Some(css) => theme_sheet(name@) matches Some(sheet) && css@ == TRANSPARENCY@ + seq![
                '\n',
            ] + sheet,
            None => theme_sheet(name@) is None,
        },
{
    let wanted = to_chars(name);
    let sheet: Option<&'static str> = if is_text(&wanted, "dracula") {
        Some(THEME_DRACULA)
    } else if is_text(&wanted, "catppuccin") {
        Some(THEME_CATPPUCCIN)
    } else if is_text(&wanted, "onedark") {
        Some(THEME_ONEDARK)
    } else if is_text(&wanted, "monokai") {
        Some(THEME_MONOKAI)
    } else if is_text(&wanted, "material-3") {
        Some(THEME_MATERIAL_3)
    } else if is_text(&wanted, "material-you") {
        Some(THEME_MATERIAL_YOU)
    } else {
        None
    };
    match sheet {
        Some(s) => {
            let mut css = String::from_str(TRANSPARENCY);
            css.push('\n');
            css.append(s);
            Some(css)
        },
        None => None,
    }
}

/// The path `base` with the component `part` joined to it, as paths join
/// on Unix: a `part` that starts with `/` stands alone; else it follows
/// `base`, with a `/` between them unless `base` is empty or ends with one.
pub open spec fn joined(base: Seq<char>, part: Seq<char>) -> Seq<char> {
    if part.len() > 0 && part[0] == '/' {
        part
    } else if base.len() == 0 || base.last() == '/' {
        base + part
    } else {
        base + seq!['/'] + part
    }
}

fn join_chars(base: &Vec<char>, part: &Vec<char>) -> (r: Vec<char>)
    ensures
        r@ == joined(base@, part@),
{
    if part.len() > 0 && part[0] == '/' {
        return part.clone();
    }
    let mut out = base.clone();
    if base.len() > 0 && base[base.len() - 1] != '/' {
        out.push('/');
    }
    append_chars(&mut out, part);
    out
}

/// Joins the component `part` to the path `base`.
pub fn join_path(base: &str, part: &str) -> (r: String)
    ensures
        r@ == joined(base@, part@),
{
    from_chars(&join_chars(&to_chars(base), &to_chars(part)))
}

/// The view of an optional string.
pub open spec fn opt_chars(s: Option<&str>) -> Option<Seq<char>> {
    match s {
        Some(h) => Some(h@),
        None => None,
    }
}

/// The directory of the tool `app_name` under a base directory of the
/// user: under `xdg` where that is set, else under `sub` in the home
/// directory, and under `/tmp` where no home directory is known either.
pub open spec fn user_dir(
    xdg: Option<Seq<char>>,
    home: Option<Seq<char>>,
    sub: Seq<char>,
    app_name: Seq<char>,
) -> Seq<char> {
    let base = match xdg {
        Some(x) => x,
        None => joined(
            match home {
                Some(h) => h,
                None => "/tmp"@,
            },
            sub,
        ),
    };
    joined(base, app_name)
}

fn user_dir_chars(xdg: Option<&str>, home: Option<&str>, sub: &str, app_name: &str) -> (r: Vec<
    char,
>)
    ensures
        r@ == user_dir(opt_chars(xdg), opt_chars(home), sub@, app_name@),
{
    let base = match xdg {
        Some(x) => to_chars(x),
        None => {
            let h = match home {
                Some(h) => to_chars(h),
                None => to_chars("/tmp"),
            };
            join_chars(&h, &to_chars(sub))
        },
    };
    join_chars(&base, &to_chars(app_name))
}

/// The configuration directory of a tool. `xdg_config_home` and `home`
/// are the values of the environment variables `XDG_CONFIG_HOME` and
/// `HOME`, where they are set.
pub fn config_dir(xdg_config_home: Option<&str>, home: Option<&str>, app_name: &str) -> (r: String)
    ensures
        r@ == user_dir(opt_chars(xdg_config_home), opt_chars(home), ".config"@, app_name@),
{
    from_chars(&user_dir_chars(xdg_config_home, home, ".config", app_name))
}

/// The cache directory of a tool, from `XDG_CACHE_HOME` and `HOME`.
pub fn cache_dir(xdg_cache_home: Option<&str>, home: Option<&str>, app_name: &str) -> (r: String)
    ensures
        r@ == user_dir(opt_chars(xdg_cache_home), opt_chars(home), ".cache"@, app_name@),
{
    from_chars(&user_dir_chars(xdg_cache_home, home, ".cache", app_name))
}

/// The directory of a tool's log, from `XDG_STATE_HOME` and `HOME`.
pub fn log_dir(xdg_state_home: Option<&str>, home: Option<&str>, app_name: &str) -> (r: String)
    ensures
        r@ == user_dir(opt_chars(xdg_state_home), opt_chars(home), ".local/state"@, app_name@),
{
    from_chars(&user_dir_chars(xdg_state_home, home, ".local/state", app_name))
}

/// The path of a tool's log: `<app_name>.log` in its log directory.
pub fn log_path(xdg_state_home: Option<&str>, home: Option<&str>, app_name: &str) -> (r: String)
    ensures
        r@ == joined(
            user_dir(opt_chars(xdg_state_home), opt_chars(home), ".local/state"@, app_name@),
            app_name@ + ".log"@,
        ),
{
    let dir = user_dir_chars(xdg_state_home, home, ".local/state", app_name);
    let mut file = to_chars(app_name);
    append_chars(&mut file, &to_chars(".log"));
    from_chars(&join_chars(&dir, &file))
}

/// `applications` joined to each of `dirs`.
pub open spec fn with_applications(dirs: Seq<Seq<char>>) -> Seq<Seq<char>> {
    dirs.map_values(|d: Seq<char>| joined(d, "applications"@))
}

/// The directories that are searched for desktop files, in order: the
/// user's own under the home directory, the one under `XDG_DATA_HOME`, and
/// one under each directory of `XDG_DATA_DIRS`, which is a list separated by
/// `:` and reads `/usr/local/share:/usr/share` where it is not set.
pub open spec fn data_dirs_of(
    home: Option<Seq<char>>,
    data_home: Option<Seq<char>>,
    data_dirs: Option<Seq<char>>,
) -> Seq<Seq<char>> {
    let own = match home {
        Some(h) => seq![joined(h, ".local/share/applications"@)],
        None => Seq::empty(),
    };
    let user = match data_home {
        Some(d) => seq![joined(d, "applications"@)],
        None => Seq::empty(),
    };
    let list = match data_dirs {
        Some(l) => l,
        None => "/usr/local/share:/usr/share"@,
    };
    own + user + with_applications(split_char(list, ':'))
}

/// The views of the strings.
pub open spec fn path_views(paths: Seq<String>) -> Seq<Seq<char>> {
    paths.map_values(|p: String| p@)
}

/// The directories that are searched for desktop files, from the values
/// of the environment variables `HOME`, `XDG_DATA_HOME` and `XDG_DATA_DIRS`.
pub fn xdg_data_dirs(home: Option<&str>, data_home: Option<&str>, data_dirs: Option<&str>) -> (r:
    Vec<String>)
    ensures
        path_views(r@) == data_dirs_of(opt_chars(home), opt_chars(data_home), opt_chars(data_dirs)),
{
    let mut dirs: Vec<String> = Vec::new();
    match home {
        Some(h) => {
            dirs.push(join_path(h, ".local/share/applications"));
        },
        None => {},
    }
    match data_home {
        Some(d) => {
            dirs.push(join_path(d, "applications"));
        },
        None => {},
    }
    let list = match data_dirs {
        Some(l) => to_chars(l),
        None => to_chars("/usr/local/share:/usr/share"),
    };
    let parts = split_on(&list, ':');
    let ghost head = path_views(dirs@);
    let ghost tail = with_applications(views(parts@));
    let mut i: usize = 0;
    assert(tail.take(0) == Seq::<Seq<char>>::empty());
    assert(head + tail.take(0) == head);
    while i < parts.len()
        invariant
            i <= parts.len(),
            tail == with_applications(views(parts@)),
            path_views(dirs@) == head + tail.take(i as int),
        decreases parts.len() - i,
    {
        let dir = from_chars(&join_chars(&parts[i], &to_chars("applications")));
        proof {
            assert(tail[i as int] == dir@);
            assert(path_views(dirs@.push(dir)) == path_views(dirs@).push(dir@));
            assert(head + tail.take(i + 1) == (head + tail.take(i as int)).push(tail[i as int]));
        }
        dirs.push(dir);
        i += 1;
    }
    assert(tail.take(parts.len() as int) == tail);
    dirs
}

/// Where the stylesheet comes from.
#[derive(Clone, Debug)]
pub enum StyleSource {
    /// A built-in theme: its full stylesheet.
    Builtin { css: String },
    /// The file at the path of the `theme` setting; the default stylesheet
    /// where it cannot be read.
    File,
    /// The default stylesheet.
    Default,
}

/// Whether a `theme` setting is a name rather than a path: it holds no
/// `/` and does not end with `.css`.
pub open spec fn is_theme_name(theme: Seq<char>) -> bool {
    !theme.contains('/') && !".css"@.is_suffix_of(theme)
}

/// Chooses the stylesheet. An override (the theme of a preview) that names
/// a built-in theme wins; an override that names none falls back to the
/// file of the `theme` setting. Without an override, a `theme` setting that
/// is a name stands for the built-in theme of that name, or for the default
/// stylesheet where there is none; any other setting is the path of a file.
pub fn resolve_style(preview: Option<&str>, theme: &str) -> (r: StyleSource)
    ensures
        match r {
            StyleSource::Builtin { css } => {
                let name = match preview {
                    Some(p) => p@,
                    None => theme@,
                };
                &&& preview is Some || is_theme_name(theme@)
                &&& theme_sheet(name) matches Some(sheet)
                &&& css@ == TRANSPARENCY@ + seq!['\n'] + sheet
            },
            StyleSource::File => match preview {
                Some(p) => theme_sheet(p@) is None,
                None => !is_theme_name(theme@),
            },
            StyleSource::Default => preview is None && is_theme_name(theme@) && theme_sheet(theme@)
                is None,
        },
{
    match preview {
        Some(p) => match get_theme_css(p) {
            Some(css) => StyleSource::Builtin { css },
            None => StyleSource::File,
        },
        None => {
            let t = to_chars(theme);
            let mut has_slash = false;
            let mut i: usize = 0;
            while i < t.len()
                invariant
                    i <= t.len(),
                    t@ == theme@,
                    has_slash == exists|k: int| 0 <= k < i && #[trigger] t@[k] == '/',
                decreases t.len() - i,
            {
                if t[i] == '/' {
                    has_slash = true;
                }
                i += 1;
            }
            proof {
                if has_slash {
                    let k = choose|k: int| 0 <= k < t.len() && #[trigger] t@[k] == '/';
                    assert(t@.contains('/'));
                }
                if t@.contains('/') {
                    let k = choose|k: int| 0 <= k < t@.len() && t@[k] == '/';
                    assert(t@[k] == '/');
                }
            }
            let suffix = to_chars(".css");
            let ends = suffix.len() <= t.len() && matches_at(&t, &suffix, t.len() - suffix.len());
            if !has_slash && !ends {
                match get_theme_css(theme) {
                    Some(css) => StyleSource::Builtin { css },
                    None => StyleSource::Default,
                }
            } else {
                StyleSource::File
            }
        },
    }
}

} // verus!
