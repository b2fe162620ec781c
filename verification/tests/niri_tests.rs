use grr::events::BarEvent;
use grr::niri::{focus_workspace_index, NiriEvent, WorkspaceInfo, WorkspaceTracker};

fn ws(id: u64, idx: u8, output: Option<&str>, is_active: bool) -> WorkspaceInfo {
    WorkspaceInfo { id, idx, output: output.map(|s| s.to_string()), is_active }
}

fn changed(e: &BarEvent) -> (i32, i32, String) {
    match e {
        BarEvent::WorkspaceChanged(a, t, o) => (*a, *t, o.clone()),
        _ => panic!("expected a workspace change"),
    }
}

#[test]
fn overview_event_is_forwarded() {
    let mut t = WorkspaceTracker::new();
    let events = t.handle_event(NiriEvent::OverviewOpenedOrClosed { is_open: true });
    assert_eq!(events.len(), 1);
    assert!(matches!(events[0], BarEvent::OverviewToggled(true)));
    let events = t.handle_event(NiriEvent::OverviewOpenedOrClosed { is_open: false });
    assert!(matches!(events[0], BarEvent::OverviewToggled(false)));
}

#[test]
fn workspace_list_announces_active_workspaces() {
    let mut t = WorkspaceTracker::new();
    let events = t.handle_event(NiriEvent::WorkspacesChanged {
        workspaces: vec![
            ws(10, 1, Some("DP-1"), false),
            ws(11, 2, Some("DP-1"), true),
            ws(12, 1, Some("HDMI-A-1"), true),
            ws(13, 3, None, true),
        ],
    });
    assert_eq!(events.len(), 2);
    assert_eq!(changed(&events[0]), (2, 4, "DP-1".to_string()));
    assert_eq!(changed(&events[1]), (1, 4, "HDMI-A-1".to_string()));
}

#[test]
fn activation_uses_tracked_list() {
    let mut t = WorkspaceTracker::new();
    t.handle_event(NiriEvent::WorkspacesChanged {
        workspaces: vec![ws(10, 1, Some("DP-1"), true), ws(11, 2, Some("DP-1"), false), ws(13, 3, None, false)],
    });
    let events = t.handle_event(NiriEvent::WorkspaceActivated { id: 11, focused: true });
    assert_eq!(events.len(), 1);
    assert_eq!(changed(&events[0]), (2, 3, "DP-1".to_string()));
    // a workspace without an output is not announced
    assert!(t.handle_event(NiriEvent::WorkspaceActivated { id: 13, focused: false }).is_empty());
    // an unknown workspace is not announced
    assert!(t.handle_event(NiriEvent::WorkspaceActivated { id: 99, focused: true }).is_empty());
}

#[test]
fn activation_before_any_list_is_silent() {
    let mut t = WorkspaceTracker::new();
    assert!(t.handle_event(NiriEvent::WorkspaceActivated { id: 1, focused: true }).is_empty());
    assert!(t.handle_event(NiriEvent::Other).is_empty());
}

#[test]
fn focus_index_is_a_byte() {
    assert_eq!(focus_workspace_index(3), 3);
    assert_eq!(focus_workspace_index(300), 44);
    assert_eq!(focus_workspace_index(-1), 255);
}
