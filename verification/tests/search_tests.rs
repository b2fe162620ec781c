use grr::search::{get_app_list, matches_query, AppEntry};
use grr::text::{chars_of, contains_text, to_lowercase, trim};

fn app(display: &str, desc: Option<&str>, name: &str, cmd: Option<&str>, show: bool) -> AppEntry {
    AppEntry {
        id: 0,
        display_name: display.to_string(),
        description: desc.map(|s| s.to_string()),
        name: name.to_string(),
        commandline: cmd.map(|s| s.to_string()),
        should_show: show,
    }
}

fn names(apps: &[AppEntry]) -> Vec<String> {
    apps.iter().map(|a| a.display_name.clone()).collect()
}

#[test]
fn contains_text_cases() {
    assert!(contains_text("firefox", "fox"));
    assert!(contains_text("firefox", ""));
    assert!(contains_text("", ""));
    assert!(!contains_text("fox", "firefox"));
    assert!(!contains_text("firefox", "foxy"));
    assert!(contains_text("aaab", "aab"));
    assert!(contains_text("grüße", "üß"));
}

#[test]
fn text_helpers() {
    assert_eq!(to_lowercase("FireFox ÄÖ"), "firefox äö");
    assert_eq!(trim("  web browser \t\n"), "web browser");
    assert_eq!(chars_of("äb"), vec!['ä', 'b']);
}

#[test]
fn matches_any_field() {
    assert!(matches_query("firefox", &None, "firefox", &None, "fire"));
    assert!(matches_query("files", &Some("web browser".into()), "nautilus", &None, "browser"));
    assert!(matches_query("files", &None, "nautilus", &Some("/usr/bin/nautilus".into()), "bin"));
    assert!(!matches_query("files", &None, "nautilus", &None, "browser"));
}

#[test]
fn search_filters_and_keeps_order() {
    let apps = vec![
        app("Firefox", Some("Web Browser"), "firefox", Some("firefox %u"), true),
        app("Files", None, "Nautilus", Some("nautilus"), true),
        app("Hidden Browser", None, "hidden", None, false),
        app("Chromium", Some("Browse the WEB"), "chromium", None, true),
    ];
    let r = get_app_list(apps.clone(), "  WEB ");
    assert_eq!(names(&r), vec!["Firefox", "Chromium"]);
    let r = get_app_list(apps.clone(), "NAUT");
    assert_eq!(names(&r), vec!["Files"]);
    let r = get_app_list(apps.clone(), "%U");
    assert_eq!(names(&r), vec!["Firefox"]);
    let r = get_app_list(apps.clone(), "zzz");
    assert!(r.is_empty());
}

#[test]
fn empty_query_lists_all_shown() {
    let apps = vec![
        app("A", None, "a", None, true),
        app("B", None, "b", None, false),
        app("C", None, "c", None, true),
    ];
    let r = get_app_list(apps, "   ");
    assert_eq!(names(&r), vec!["A", "C"]);
}

#[test]
fn results_keep_their_ids() {
    let mut apps = vec![
        app("Terminal", None, "term", None, true),
        app("Text Editor", None, "edit", None, true),
        app("Calculator", None, "calc", None, true),
    ];
    for (i, a) in apps.iter_mut().enumerate() {
        a.id = 10 + i;
    }
    let r = get_app_list(apps, "te");
    let ids: Vec<usize> = r.iter().map(|a| a.id).collect();
    assert_eq!(ids, vec![10, 11]);
}

#[test]
fn trim_removes_unicode_white_space() {
    assert_eq!(trim("\u{3000}\u{a0} dock \u{2009}\u{85}"), "dock");
    assert_eq!(trim("\u{200b}x"), "\u{200b}x");
    assert_eq!(trim(trim("  a b  ")), trim("  a b  "));
}

#[test]
fn case_and_space_do_not_change_results() {
    let apps = vec![
        app("Firefox", Some("Web Browser"), "firefox", None, true),
        app("Files", None, "nautilus", None, true),
        app("Terminal", None, "console", None, true),
    ];
    let base = names(&get_app_list(apps.clone(), "fi"));
    assert_eq!(base, vec!["Firefox", "Files"]);
    assert_eq!(names(&get_app_list(apps.clone(), "  fi\t")), base);
    assert_eq!(names(&get_app_list(apps.clone(), "FI")), base);
    assert_eq!(names(&get_app_list(apps.clone(), " Fi ")), base);
}

#[test]
fn more_specific_query_lists_fewer() {
    let apps = vec![
        app("Firefox", None, "firefox", None, true),
        app("Files", None, "nautilus", None, true),
        app("Fish", None, "fish", None, true),
    ];
    assert_eq!(names(&get_app_list(apps.clone(), "f")), vec!["Firefox", "Files", "Fish"]);
    assert_eq!(names(&get_app_list(apps.clone(), "fi")), vec!["Firefox", "Files", "Fish"]);
    assert_eq!(names(&get_app_list(apps.clone(), "fir")), vec!["Firefox"]);
    assert_eq!(names(&get_app_list(apps.clone(), "\u{3000}")), vec!["Firefox", "Files", "Fish"]);
}

#[test]
fn enter_launches_first_listed() {
    let apps = vec![
        app("Files", None, "nautilus", None, true),
        app("Firefox", None, "firefox", None, true),
    ];
    let first = grr::search::app_to_launch(apps.clone(), "FI").unwrap();
    assert_eq!(first.display_name, "Files");
    let second = grr::search::app_to_launch(apps.clone(), "fox").unwrap();
    assert_eq!(second.display_name, "Firefox");
    assert!(grr::search::app_to_launch(apps, "zzz").is_none());
}
