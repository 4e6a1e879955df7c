use popup_core::launcher::desktop::{DesktopEntry, Frequency};
use popup_core::launcher::search::{
    field_match, filter_entries, fuzzy_match, get_filtered_entry, visible_entries, MAX_VISIBLE,
    SCORE_CONTAINS, SCORE_EXACT,
};

fn app(name: &str, description: &str) -> DesktopEntry {
    DesktopEntry {
        name: name.to_string(),
        command: name.to_lowercase(),
        icon: String::new(),
        description: description.to_string(),
        terminal: false,
        path: format!("/usr/share/applications/{}.desktop", name),
        score: 0,
    }
}

fn names(list: &[DesktopEntry]) -> Vec<String> {
    list.iter().map(|e| e.name.clone()).collect()
}

fn launched(pairs: &[(&str, u32)]) -> Frequency {
    let mut f = Frequency::new();
    for (name, count) in pairs {
        for _ in 0..*count {
            f.record(name);
        }
    }
    f
}

#[test]
fn fuzzy_empty_query_scores_zero() {
    assert_eq!(fuzzy_match("", "anything"), Some(0));
    assert_eq!(fuzzy_match("", ""), Some(0));
}

#[test]
fn fuzzy_exact_match_scores_1000() {
    assert_eq!(SCORE_EXACT, 1000);
    assert_eq!(fuzzy_match("firefox", "firefox"), Some(1000));
    assert_eq!(fuzzy_match("firefox", "Firefox"), Some(1000));
    assert_eq!(fuzzy_match("FIREFOX", "fireFox"), Some(1000));
}

#[test]
fn fuzzy_prefix_match_rewards_short_queries() {
    assert_eq!(fuzzy_match("f", "Firefox"), Some(599));
    assert_eq!(fuzzy_match("fi", "Firefox"), Some(598));
    assert_eq!(fuzzy_match("FIRE", "firefox"), Some(596));
    assert_eq!(fuzzy_match("firefo", "Firefox"), Some(594));
}

#[test]
fn fuzzy_prefix_length_counts_bytes() {
    assert_eq!(fuzzy_match("é", "école"), Some(598));
    assert_eq!(fuzzy_match("É", "école"), Some(598));
}

#[test]
fn fuzzy_long_prefix_scores_below_zero() {
    let text = "a".repeat(701);
    let query = "a".repeat(700);
    assert_eq!(fuzzy_match(&query, &text), Some(-100));
    let query = "a".repeat(401);
    assert_eq!(fuzzy_match(&query, &text), Some(199));
}

#[test]
fn fuzzy_contained_query_scores_200() {
    assert_eq!(SCORE_CONTAINS, 200);
    assert_eq!(fuzzy_match("fox", "Firefox"), Some(200));
    assert_eq!(fuzzy_match("REF", "firefox"), Some(200));
    assert_eq!(fuzzy_match("x", "firefox"), Some(200));
}

#[test]
fn fuzzy_subsequence_adds_ten_per_run_length() {
    // f . . . f . x: three runs of one
    assert_eq!(fuzzy_match("ffx", "firefox"), Some(30));
    // ab (10 + 20), c breaks the run, d (10)
    assert_eq!(fuzzy_match("abd", "abcd"), Some(40));
    // f, then ox as a run of two after e and f break it: 10 + 10 + 20
    assert_eq!(fuzzy_match("fox", "f-e-ox"), Some(40));
    // abcdef (10 + ... + 60), X breaks the run, g (10)
    assert_eq!(fuzzy_match("abcdefg", "abcdefXg"), Some(220));
}

#[test]
fn fuzzy_subsequence_needs_the_whole_query() {
    assert_eq!(fuzzy_match("xyz", "firefox"), None);
    assert_eq!(fuzzy_match("foxx", "firefox"), None);
    assert_eq!(fuzzy_match("xf", "firefox"), None);
    assert_eq!(fuzzy_match("a", ""), None);
}

#[test]
fn fuzzy_branches_are_ordered_for_short_queries() {
    let text = "terminal";
    let exact = fuzzy_match("terminal", text).unwrap();
    let prefix = fuzzy_match("term", text).unwrap();
    let contained = fuzzy_match("mina", text).unwrap();
    let scattered = fuzzy_match("tmnl", text).unwrap();
    assert_eq!((exact, prefix, contained, scattered), (1000, 596, 200, 40));
    assert!(exact >= prefix && prefix >= contained && contained >= scattered);
}

#[test]
fn field_match_takes_folded_texts_as_they_are() {
    assert_eq!(field_match("fi", "firefox"), Some(598));
    // it does not fold case itself
    assert_eq!(field_match("FI", "firefox"), None);
    assert_eq!(field_match("", "firefox"), Some(600));
    assert_eq!(field_match("", ""), Some(1000));
}

#[test]
fn filter_fuzzy_scenario_usage_outranks() {
    let entries = vec![app("Firefox", "web browser"), app("Files", "file manager")];
    let freq = launched(&[("Files", 3)]);
    assert_eq!(freq.get("Files"), 3);
    assert_eq!(freq.get("Firefox"), 0);
    // both score 598 as a prefix; Files gains 150
    let list = filter_entries(&entries, "fi", &freq);
    assert_eq!(names(&list), ["Files", "Firefox"]);
    // without the launches the given order decides
    let list = filter_entries(&entries, "fi", &Frequency::new());
    assert_eq!(names(&list), ["Firefox", "Files"]);
}

#[test]
fn filter_empty_query_keeps_everything_in_order() {
    let entries = vec![app("Zed", "editor"), app("Alacritty", "terminal"), app("Mpv", "player")];
    let list = filter_entries(&entries, "", &Frequency::new());
    assert_eq!(names(&list), ["Zed", "Alacritty", "Mpv"]);
    let list = filter_entries(&entries, "", &launched(&[("Mpv", 9), ("Alacritty", 2)]));
    assert_eq!(names(&list), ["Zed", "Alacritty", "Mpv"]);
    assert_eq!(list[1].path, entries[1].path);
    assert_eq!(filter_entries(&[], "", &Frequency::new()).len(), 0);
}

#[test]
fn filter_drops_what_does_not_match() {
    let entries = vec![app("Firefox", "web browser"), app("Gimp", "image editor")];
    let list = filter_entries(&entries, "gim", &Frequency::new());
    assert_eq!(names(&list), ["Gimp"]);
    let list = filter_entries(&entries, "qqq", &Frequency::new());
    assert_eq!(list.len(), 0);
    // a launch count does not make a candidate match
    let list = filter_entries(&entries, "gim", &launched(&[("Firefox", 100)]));
    assert_eq!(names(&list), ["Gimp"]);
}

#[test]
fn filter_ranks_by_descending_score() {
    let entries = vec![
        app("Xterm", "a terminal"),
        app("Terminal", "shell"),
        app("Kitty terminal", "fast"),
        app("Term", "short"),
    ];
    // Xterm: contained (200); Terminal: prefix (596); Kitty terminal:
    // contained (200); Term: exact (1000)
    let list = filter_entries(&entries, "term", &Frequency::new());
    assert_eq!(names(&list), ["Term", "Terminal", "Xterm", "Kitty terminal"]);
}

#[test]
fn filter_halves_the_description_score() {
    let entries = vec![app("Cobweb", "a toy"), app("Foo", "web browser")];
    // Cobweb: name holds the query (200); Foo: description starts with it
    // (597, halved to 298)
    let list = filter_entries(&entries, "web", &Frequency::new());
    assert_eq!(names(&list), ["Foo", "Cobweb"]);
    // one launch of Cobweb is 50 more (250), two are 100 more (300)
    let list = filter_entries(&entries, "web", &launched(&[("Cobweb", 1)]));
    assert_eq!(names(&list), ["Foo", "Cobweb"]);
    let list = filter_entries(&entries, "web", &launched(&[("Cobweb", 2)]));
    assert_eq!(names(&list), ["Cobweb", "Foo"]);
}

#[test]
fn filter_takes_the_better_field() {
    let entries = vec![app("Web", "web"), app("Other", "web")];
    // Web: exact name (1000) beats its halved description (500); Other has
    // the halved description only (500)
    let list = filter_entries(&entries, "web", &launched(&[("Other", 9)]));
    // Other: 500 + 450 = 950 < 1000
    assert_eq!(names(&list), ["Web", "Other"]);
    let list = filter_entries(&entries, "web", &launched(&[("Other", 11)]));
    // Other: 500 + 550 = 1050 > 1000
    assert_eq!(names(&list), ["Other", "Web"]);
}

#[test]
fn filter_keeps_ties_in_the_given_order() {
    let entries = vec![
        app("Notes b", ""),
        app("Notes a", ""),
        app("Notes d", ""),
        app("Notes c", ""),
    ];
    let list = filter_entries(&entries, "notes", &Frequency::new());
    assert_eq!(names(&list), ["Notes b", "Notes a", "Notes d", "Notes c"]);
    let list = filter_entries(&entries, "notes", &launched(&[("Notes d", 1)]));
    assert_eq!(names(&list), ["Notes d", "Notes b", "Notes a", "Notes c"]);
}

#[test]
fn resolve_index_round_trip() {
    let entries = vec![
        app("Firefox", "web browser"),
        app("Files", "file manager"),
        app("Gimp", "image editor"),
        app("Figma", "design"),
    ];
    let freq = launched(&[("Files", 3), ("Gimp", 1)]);
    for query in ["", "fi", "f", "g", "image", "zzz"] {
        let list = filter_entries(&entries, query, &freq);
        for i in 0..list.len() {
            let got = get_filtered_entry(&entries, query, i, &freq).unwrap();
            assert_eq!(got.name, list[i].name);
            assert_eq!(got.path, list[i].path);
        }
        assert!(get_filtered_entry(&entries, query, list.len(), &freq).is_none());
        assert!(get_filtered_entry(&entries, query, usize::MAX, &freq).is_none());
    }
}

#[test]
fn visible_rows_are_capped_at_fifty() {
    assert_eq!(MAX_VISIBLE, 50);
    let entries: Vec<DesktopEntry> = (0..60).map(|i| app(&format!("App {:02}", i), "")).collect();
    let all = filter_entries(&entries, "app", &Frequency::new());
    assert_eq!(all.len(), 60);
    let shown = visible_entries(&entries, "app", &Frequency::new());
    assert_eq!(shown.len(), 50);
    assert_eq!(names(&shown), names(&all[..50]));
    let shown = visible_entries(&entries, "", &Frequency::new());
    assert_eq!(shown.len(), 50);
    let shown = visible_entries(&entries[..7], "app", &Frequency::new());
    assert_eq!(shown.len(), 7);
}

#[test]
fn frequency_counts_by_name() {
    let mut f = Frequency::new();
    assert_eq!(f.get("Files"), 0);
    f.record("Files");
    f.record("Gimp");
    f.record("Files");
    assert_eq!(f.get("Files"), 2);
    assert_eq!(f.get("Gimp"), 1);
    assert_eq!(f.get("files"), 0);
    assert_eq!(f.get(""), 0);
}

#[test]
fn frequency_stops_at_the_largest_count() {
    let mut f = Frequency { entries: vec![("Files".to_string(), u32::MAX - 1)] };
    f.record("Files");
    assert_eq!(f.get("Files"), u32::MAX);
    f.record("Files");
    assert_eq!(f.get("Files"), u32::MAX);
}

#[test]
fn app_duplicate_copies_every_field() {
    let mut e = app("Firefox", "web browser");
    e.terminal = true;
    e.score = 7;
    e.icon = "firefox".to_string();
    let d = e.duplicate();
    assert_eq!(d.name, e.name);
    assert_eq!(d.command, e.command);
    assert_eq!(d.icon, e.icon);
    assert_eq!(d.description, e.description);
    assert_eq!(d.terminal, e.terminal);
    assert_eq!(d.path, e.path);
    assert_eq!(d.score, e.score);
}
