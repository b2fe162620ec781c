use grr::monitors::{contains_id, update_monitors, workspace_targets};

#[test]
fn new_and_removed_monitors() {
    let bars = vec![1u64, 2];
    let active = vec![2u64, 3, 3, 4];
    let u = update_monitors(&bars, &active);
    assert_eq!(u.keep, vec![false, true]);
    assert_eq!(u.added, vec![3, 4]);
}

#[test]
fn update_is_idempotent() {
    let bars = vec![5u64, 1];
    let active = vec![1u64, 7];
    let u = update_monitors(&bars, &active);
    let mut after: Vec<u64> = bars.iter().zip(u.keep.iter()).filter(|(_, k)| **k).map(|(b, _)| *b).collect();
    after.extend(u.added.iter());
    assert_eq!(after, vec![1, 7]);
    let u2 = update_monitors(&after, &active);
    assert_eq!(u2.keep, vec![true, true]);
    assert!(u2.added.is_empty());
}

#[test]
fn no_monitors_removes_all_bars() {
    let u = update_monitors(&vec![1, 2, 3], &vec![]);
    assert_eq!(u.keep, vec![false, false, false]);
    assert!(u.added.is_empty());
}

#[test]
fn contains_id_finds_ids() {
    assert!(contains_id(&vec![4, 5, 6], 6));
    assert!(!contains_id(&vec![4, 5, 6], 7));
    assert!(!contains_id(&vec![], 0));
}

#[test]
fn targets_by_connector() {
    let connectors = vec![Some("DP-1".to_string()), None, Some("HDMI-A-1".to_string()), Some("DP-1".to_string())];
    let t = workspace_targets(&connectors, &"DP-1".to_string());
    assert_eq!(t, vec![true, false, false, true]);
}

#[test]
fn applying_an_update() {
    let bars = vec![1u64, 2, 5];
    let active = vec![5u64, 9, 2];
    let u = update_monitors(&bars, &active);
    let (kept, removed) = grr::monitors::apply_monitor_update(vec!["a", "b", "c"], &u.keep, vec!["new"]);
    assert_eq!(kept, vec!["b", "c", "new"]);
    assert_eq!(removed, vec!["a"]);
    let (ids, gone) = grr::monitors::apply_monitor_update(bars.clone(), &u.keep, u.added.clone());
    assert_eq!(ids, vec![2, 5, 9]);
    assert_eq!(gone, vec![1]);
}
