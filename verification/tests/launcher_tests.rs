use grr::clock::get_current_time_label;
use grr::config::Config;
use grr::launcher::{is_control, launcher_key_pressed, results_label, stops_propagation, toggle_action, KeyOutcome, ToggleAction};

#[test]
fn control_characters() {
    assert!(is_control('\u{0}'));
    assert!(is_control('\n'));
    assert!(is_control('\u{7f}'));
    assert!(is_control('\u{9f}'));
    assert!(!is_control('a'));
    assert!(!is_control(' '));
    assert!(!is_control('\u{a0}'));
    for c in ['\u{0}', '\u{1f}', '\u{20}', '\u{7e}', '\u{7f}', '\u{9f}', '\u{a0}', 'é'] {
        assert_eq!(is_control(c), c.is_control());
    }
}

#[test]
fn key_handling() {
    let o = launcher_key_pressed(true, Some('a'), "fi");
    assert!(matches!(o, KeyOutcome::Toggle));
    assert!(stops_propagation(&o));
    let o = launcher_key_pressed(false, Some('r'), "fi");
    match &o {
        KeyOutcome::InsertText(t) => assert_eq!(t, "fir"),
        _ => panic!("expected typed text"),
    }
    assert!(!stops_propagation(&o));
    let o = launcher_key_pressed(false, Some('\u{8}'), "fi");
    assert!(matches!(o, KeyOutcome::Ignore));
    let o = launcher_key_pressed(false, None, "fi");
    assert!(matches!(o, KeyOutcome::Ignore));
    assert!(!stops_propagation(&o));
}

#[test]
fn toggling() {
    assert!(toggle_action(true) == ToggleAction::Hide);
    assert!(toggle_action(false) == ToggleAction::Show);
}

#[test]
fn result_labels() {
    assert_eq!(results_label(0), "0 results");
    assert_eq!(results_label(7), "7 results");
    assert_eq!(results_label(10), "10 results");
    assert_eq!(results_label(1203), "1203 results");
    assert_eq!(results_label(usize::MAX), format!("{} results", usize::MAX));
}

#[test]
fn clock_label_formats_and_rejects_bad_format() {
    let c = Config::default();
    let label = get_current_time_label(&c, 1_700_000_000);
    assert!(label.is_some());
    assert!(!label.unwrap().is_empty());
    let mut bad = Config::default();
    bad.time_format = String::new();
    assert_eq!(get_current_time_label(&bad, 0), None);
    let mut fixed = Config::default();
    fixed.time_format = "%Y".to_string();
    let y = get_current_time_label(&fixed, 1_700_000_000).unwrap();
    assert!(y == "2023" || y == "2024");
}

#[test]
fn clock_label_rejects_nul() {
    let mut c = Config::default();
    c.time_format = "%Y\0".to_string();
    assert_eq!(get_current_time_label(&c, 0), None);
}

#[test]
fn clock_label_rejects_unaccepted_formats() {
    for f in ["%Q", "%Y%", "{%Y", "%H}", "abc%"] {
        let mut c = Config::default();
        c.time_format = f.to_string();
        assert_eq!(get_current_time_label(&c, 1_700_000_000), None, "{}", f);
    }
    let mut c = Config::default();
    c.time_format = "{%Y}%%".to_string();
    assert!(get_current_time_label(&c, 1_700_000_000).is_some());
}
