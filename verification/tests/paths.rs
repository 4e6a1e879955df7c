use popup_core::common::config::{Anchor, ConfigBase};
use popup_core::common::layer::{parse_cursor_position, placement, Placement};
use popup_core::common::paths::{
    builtin_themes, cache_dir, config_dir, get_theme_css, join_path, log_dir, log_path,
    resolve_style, shellexpand, xdg_data_dirs, StyleSource, TRANSPARENCY,
};

#[test]
fn home_directory_expansion() {
    assert_eq!(shellexpand("~/x/y", Some("/home/u")), "/home/u/x/y");
    assert_eq!(shellexpand("~/", Some("/home/u")), "/home/u/");
    assert_eq!(shellexpand("~/x", None), "~/x");
    assert_eq!(shellexpand("~x", Some("/home/u")), "~x");
    assert_eq!(shellexpand("/abs", Some("/home/u")), "/abs");
    assert_eq!(shellexpand("a/~/b", Some("/home/u")), "a/~/b");
    assert_eq!(shellexpand("", Some("/home/u")), "");
    assert_eq!(shellexpand("~/x", Some("")), "/x");
}

#[test]
fn joining_paths() {
    assert_eq!(join_path("/a", "b"), "/a/b");
    assert_eq!(join_path("/a/", "b"), "/a/b");
    assert_eq!(join_path("/a", "/b"), "/b");
    assert_eq!(join_path("", "b"), "b");
    assert_eq!(join_path("/a", ""), "/a/");
    assert_eq!(join_path("/", "b"), "/b");
    for (base, part) in [("/a", "b"), ("/a/", "b"), ("/a", "/b"), ("", "b"), ("/a", ""), ("a", "b/c")] {
        let expected = std::path::Path::new(base).join(part);
        assert_eq!(join_path(base, part), expected.to_str().unwrap());
    }
}

#[test]
fn user_directories() {
    assert_eq!(config_dir(Some("/xdg"), Some("/home/u"), "tool"), "/xdg/tool");
    assert_eq!(config_dir(None, Some("/home/u"), "tool"), "/home/u/.config/tool");
    assert_eq!(config_dir(None, None, "tool"), "/tmp/.config/tool");
    assert_eq!(cache_dir(Some("/xdg"), None, "tool"), "/xdg/tool");
    assert_eq!(cache_dir(None, Some("/home/u"), "tool"), "/home/u/.cache/tool");
    assert_eq!(cache_dir(None, None, "tool"), "/tmp/.cache/tool");
    assert_eq!(log_dir(None, Some("/home/u"), "tool"), "/home/u/.local/state/tool");
    assert_eq!(log_dir(Some("/state"), Some("/home/u"), "tool"), "/state/tool");
    assert_eq!(log_path(None, Some("/home/u"), "tool"), "/home/u/.local/state/tool/tool.log");
    assert_eq!(log_path(Some("/state/"), None, "tool"), "/state/tool/tool.log");
}

#[test]
fn desktop_file_directories() {
    assert_eq!(
        xdg_data_dirs(Some("/home/u"), Some("/data"), Some("/a:/b/")),
        ["/home/u/.local/share/applications", "/data/applications", "/a/applications",
            "/b/applications"]
    );
    assert_eq!(
        xdg_data_dirs(None, None, None),
        ["/usr/local/share/applications", "/usr/share/applications"]
    );
    assert_eq!(xdg_data_dirs(None, None, Some("")), ["applications"]);
    assert_eq!(
        xdg_data_dirs(Some("/home/u"), None, Some("/a")),
        ["/home/u/.local/share/applications", "/a/applications"]
    );
}

#[test]
fn built_in_themes() {
    let themes = builtin_themes();
    let names: Vec<&str> = themes.iter().map(|t| t.0).collect();
    assert_eq!(
        names,
        ["dracula", "catppuccin", "onedark", "monokai", "material-3", "material-you"]
    );
    for (name, sheet) in themes {
        let css = get_theme_css(name).unwrap();
        assert_eq!(css, format!("{}\n{}", TRANSPARENCY, sheet));
        assert!(css.starts_with("window,\nwindow.background {"));
    }
    assert_eq!(get_theme_css("Dracula"), None);
    assert_eq!(get_theme_css(""), None);
    assert_eq!(get_theme_css("solarized"), None);
}

#[test]
fn style_source_is_chosen() {
    let dracula = get_theme_css("dracula").unwrap();
    match resolve_style(Some("dracula"), "/x/style.css") {
        StyleSource::Builtin { css } => assert_eq!(css, dracula),
        other => panic!("{:?}", other),
    }
    assert!(matches!(resolve_style(Some("nope"), "dracula"), StyleSource::File));
    match resolve_style(None, "dracula") {
        StyleSource::Builtin { css } => assert_eq!(css, dracula),
        other => panic!("{:?}", other),
    }
    assert!(matches!(resolve_style(None, "nope"), StyleSource::Default));
    assert!(matches!(resolve_style(None, ""), StyleSource::Default));
    assert!(matches!(resolve_style(None, "/x/style.css"), StyleSource::File));
    assert!(matches!(resolve_style(None, "themes/dracula"), StyleSource::File));
    assert!(matches!(resolve_style(None, "dracula.css"), StyleSource::File));
    assert!(matches!(resolve_style(None, ".css"), StyleSource::File));
}

#[test]
fn cursor_position_is_read() {
    assert_eq!(parse_cursor_position("120, 45\n"), (120, 45));
    assert_eq!(parse_cursor_position("  7,8"), (7, 8));
    assert_eq!(parse_cursor_position("-3, +4"), (-3, 4));
    assert_eq!(parse_cursor_position("x, 4"), (0, 4));
    assert_eq!(parse_cursor_position("3,"), (3, 0));
    assert_eq!(parse_cursor_position("1,2,3"), (1, 0));
    assert_eq!(parse_cursor_position("12 34"), (0, 0));
    assert_eq!(parse_cursor_position(""), (0, 0));
}

fn base(anchor: Anchor, margins: (i32, i32, i32, i32)) -> ConfigBase {
    let mut b = ConfigBase::new(String::new(), 100, 100);
    b.anchor = anchor;
    b.margin_top = margins.0;
    b.margin_bottom = margins.1;
    b.margin_left = margins.2;
    b.margin_right = margins.3;
    b
}

fn edges(p: Placement) -> (bool, bool, bool, bool) {
    (p.top, p.bottom, p.left, p.right)
}

#[test]
fn placement_anchors() {
    let cases = [
        (Anchor::Center, (false, false, false, false)),
        (Anchor::Top, (true, false, false, false)),
        (Anchor::TopLeft, (true, false, true, false)),
        (Anchor::TopRight, (true, false, false, true)),
        (Anchor::Bottom, (false, true, false, false)),
        (Anchor::BottomLeft, (false, true, true, false)),
        (Anchor::BottomRight, (false, true, false, true)),
        (Anchor::Cursor, (true, false, true, false)),
    ];
    for (anchor, expected) in cases {
        let p = placement(&base(anchor, (0, 0, 0, 0)), (30, 40));
        assert_eq!(edges(p), expected);
        assert_eq!((p.margin_bottom, p.margin_right), (None, None));
        if anchor == Anchor::Cursor {
            assert_eq!((p.margin_top, p.margin_left), (Some(40), Some(30)));
        } else {
            assert_eq!((p.margin_top, p.margin_left), (None, None));
        }
    }
}

#[test]
fn placement_margins() {
    let p = placement(&base(Anchor::Top, (1, 2, 3, 4)), (30, 40));
    assert_eq!(
        (p.margin_top, p.margin_bottom, p.margin_left, p.margin_right),
        (Some(1), Some(2), Some(3), Some(4))
    );
    // a configured margin wins over the pointer
    let p = placement(&base(Anchor::Cursor, (5, 0, 0, -6)), (30, 40));
    assert_eq!(
        (p.margin_top, p.margin_bottom, p.margin_left, p.margin_right),
        (Some(5), None, Some(30), Some(-6))
    );
}
