use grr::events::{BarEvent, NotificationInfo};
use grr::notification::{timeout_duration, NotificationServer};
use grr::notifications::NotificationDaemon;

fn info(name: &str, timeout: i32) -> NotificationInfo {
    NotificationInfo {
        app_name: name.to_string(),
        app_icon: "icon".to_string(),
        summary: "sum".to_string(),
        body: "body text".to_string(),
        timeout,
    }
}

#[test]
fn ids_count_up_and_replacements_keep_theirs() {
    let mut d = NotificationDaemon::new();
    let (_, a) = d.notify("a".into(), 0, "".into(), "".into(), "".into(), -1);
    let (_, b) = d.notify("b".into(), 0, "".into(), "".into(), "".into(), -1);
    let (_, r) = d.notify("c".into(), 7, "".into(), "".into(), "".into(), -1);
    let (_, c) = d.notify("d".into(), 0, "".into(), "".into(), "".into(), -1);
    assert_eq!((a, b, r, c), (1, 2, 7, 3));
    assert_eq!(d.counter(), 3);
}

#[test]
fn notify_builds_the_event() {
    let mut d = NotificationDaemon::new();
    let (e, id) = d.notify("app".into(), 0, "ic".into(), "title".into(), "text".into(), 5000);
    assert_eq!(id, 1);
    match e {
        BarEvent::Notification(n) => {
            assert_eq!(n.app_name, "app");
            assert_eq!(n.app_icon, "ic");
            assert_eq!(n.summary, "title");
            assert_eq!(n.body, "text");
            assert_eq!(n.timeout, 5000);
        }
        _ => panic!("expected a notification"),
    }
}

#[test]
fn capabilities_and_information() {
    let d = NotificationDaemon::new();
    assert_eq!(d.get_capabilities(), vec!["body".to_string()]);
    let (n, v, ver, spec) = d.get_server_information();
    assert_eq!((n.as_str(), v.as_str(), ver.as_str(), spec.as_str()), ("grr-notification-daemon", "grr", "0.1", "1.2"));
    d.close_notification(1);
}

#[test]
fn display_times() {
    assert_eq!(timeout_duration(0), -1);
    assert_eq!(timeout_duration(1500), 1500);
    assert_eq!(timeout_duration(-1), 2000);
    assert_eq!(timeout_duration(i32::MIN), 2000);
}

#[test]
fn popup_replaces_and_history_grows() {
    let mut s = NotificationServer::init();
    let p = s.new_notif(info("first", 0));
    assert!(!p.close_previous);
    assert_eq!(p.expire_after_ms, None);
    let p = s.new_notif(info("second", -1));
    assert!(p.close_previous);
    assert_eq!(p.expire_after_ms, Some(2000));
    assert_eq!(s.history().len(), 2);
    assert_eq!(s.history()[0].app_name, "first");
    assert_eq!(s.history()[1].app_name, "second");
    let cur = s.current().as_ref().unwrap();
    assert_eq!(cur.notification_info.app_name, "second");
    assert_eq!(cur.timeout_duration, 2000);
    s.notification_expired();
    assert!(s.current().is_none());
    assert_eq!(s.history().len(), 2);
    let p = s.new_notif(info("third", 300));
    assert!(!p.close_previous);
    assert_eq!(p.expire_after_ms, Some(300));
}

#[test]
fn notification_clone_keeps_fields() {
    let n = info("x", 9);
    let c = n.clone();
    assert_eq!(c.app_name, "x");
    assert_eq!(c.body, "body text");
    assert_eq!(c.timeout, 9);
}
