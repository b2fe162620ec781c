use grr::start_widget::StartWidget;

fn positions(w: &StartWidget) -> Vec<i32> {
    w.buttons().iter().map(|b| b.pos).collect()
}

fn actives(w: &StartWidget) -> Vec<bool> {
    w.buttons().iter().map(|b| b.active).collect()
}

#[test]
fn grows_to_workspace_count() {
    let mut w = StartWidget::init();
    assert_eq!(w.button_count(), 0);
    let c = w.workspace_changed(2, 3);
    assert_eq!((c.removed, c.added), (0, 3));
    assert_eq!(positions(&w), vec![1, 2, 3]);
    assert_eq!(actives(&w), vec![false, true, false]);
}

#[test]
fn shrinks_from_the_end() {
    let mut w = StartWidget::init();
    w.workspace_changed(1, 4);
    let c = w.workspace_changed(1, 2);
    assert_eq!((c.removed, c.added), (2, 0));
    assert_eq!(positions(&w), vec![1, 2]);
    assert_eq!(actives(&w), vec![true, false]);
}

#[test]
fn non_positive_count_removes_everything() {
    let mut w = StartWidget::init();
    w.workspace_changed(1, 3);
    let c = w.workspace_changed(1, -2);
    assert_eq!((c.removed, c.added), (3, 0));
    assert_eq!(w.button_count(), 0);
}

#[test]
fn out_of_range_active_marks_nothing() {
    let mut w = StartWidget::init();
    w.workspace_changed(0, 3);
    assert_eq!(actives(&w), vec![false, false, false]);
    w.workspace_changed(4, 3);
    assert_eq!(actives(&w), vec![false, false, false]);
    w.workspace_changed(-5, 3);
    assert_eq!(actives(&w), vec![false, false, false]);
}

#[test]
fn overview_style_follows_state() {
    let mut w = StartWidget::init();
    w.workspace_changed(1, 2);
    w.set_overview_state(true);
    assert!(w.buttons().iter().all(|b| b.overview));
    w.workspace_changed(1, 3);
    let ov: Vec<bool> = w.buttons().iter().map(|b| b.overview).collect();
    assert_eq!(ov, vec![true, true, false]);
    w.set_overview_state(false);
    assert!(w.buttons().iter().all(|b| !b.overview));
}

#[test]
fn lowest_active_number_with_no_workspaces() {
    let mut w = StartWidget::init();
    w.workspace_changed(1, 2);
    let c = w.workspace_changed(i32::MIN, 0);
    assert_eq!((c.removed, c.added), (2, 0));
    assert_eq!(w.button_count(), 0);
    let c = w.workspace_changed(i32::MIN, -3);
    assert_eq!((c.removed, c.added), (0, 0));
}

#[test]
fn repeating_a_change_changes_nothing() {
    let mut w = StartWidget::init();
    w.workspace_changed(2, 4);
    let before: Vec<(i32, bool)> = w.buttons().iter().map(|b| (b.pos, b.active)).collect();
    let c = w.workspace_changed(2, 4);
    assert_eq!((c.removed, c.added), (0, 0));
    let after: Vec<(i32, bool)> = w.buttons().iter().map(|b| (b.pos, b.active)).collect();
    assert_eq!(before, after);
}
