use vstd::prelude::*;

use crate::events::{NotificationInfo, NotificationModel};

verus! {

/// The notification currently shown and how long it stays (in milliseconds, -1 for ever).
pub struct ShownNotification {
    pub notification_info: NotificationInfo,
    pub timeout_duration: i32,
}

/// The popup service: the notification on screen and the history of all received ones.
pub struct NotificationServer {
    notification_history: Vec<NotificationInfo>,
    current_notification: Option<ShownNotification>,
}

/// The history and the shown notification with its display time.
pub struct NotificationServerModel {
    pub history: Seq<NotificationModel>,
    pub current: Option<(NotificationModel, i32)>,
}

/// The views of a sequence of notifications.
pub open spec fn notifications_view(ns: Seq<NotificationInfo>) -> Seq<NotificationModel> {
    ns.map_values(|n: NotificationInfo| n@)
}

impl View for NotificationServer {
    type V = NotificationServerModel;

    closed spec fn view(&self) -> NotificationServerModel {
        NotificationServerModel {
            history: notifications_view(self.notification_history@),
            current: match self.current_notification {
                Some(s) => Some((s.notification_info@, s.timeout_duration)),
                None => None,
            },
        }
    }
}

/// How long a notification stays on screen, in milliseconds: a requested time of 0
/// means for ever (-1), a positive one is kept, and a negative one gives 2 seconds.
pub open spec fn display_time(timeout: i32) -> i32 {
    if timeout == 0 {
        -1i32
    } else if timeout > 0 {
        timeout
    } else {
        2000
    }
}

/// How long a notification with the requested `timeout` stays on screen.
pub fn timeout_duration(timeout: i32) -> (d: i32)
    ensures
        d == display_time(timeout),
{
    let mut timeout_duration: i32 = 2000;
    if timeout == 0 {
        timeout_duration = -1
    } else if timeout > 0 {
        timeout_duration = timeout
    }
    timeout_duration
}

/// What the popup has to do for a new notification.
pub struct PopupPlan {
    /// Whether a notification is on screen and its window must be closed first.
    pub close_previous: bool,
    /// After how many milliseconds the new popup closes; `None` when it stays.
    pub expire_after_ms: Option<u64>,
}

/// The popup state after a new notification.
pub open spec fn new_notif_model(s: NotificationServerModel, n: NotificationModel) -> NotificationServerModel {
    NotificationServerModel {
        history: s.history.push(n),
        current: Some((n, display_time(n.timeout))),
    }
}

/// The popup state after the display time of the shown notification ran out.
pub open spec fn expired_model(s: NotificationServerModel) -> NotificationServerModel {
    NotificationServerModel { history: s.history, current: None }
}

impl NotificationServer {
    /// A service with an empty history and nothing on screen.
    pub fn init() -> (s: Self)
        ensures
            s@.history == Seq::<NotificationModel>::empty(),
            s@.current is None,
    {
        let s = NotificationServer { notification_history: Vec::new(), current_notification: None };
        assert(s@.history =~= Seq::<NotificationModel>::empty());
        s
    }

    /// Shows a new notification in place of the current one and records it in the history.
    pub fn new_notif(&mut self, notif: NotificationInfo) -> (p: PopupPlan)
        ensures
            final(self)@ == new_notif_model(old(self)@, notif@),
            p.close_previous == old(self)@.current is Some,
            p.expire_after_ms == (if display_time(notif@.timeout) == -1 {
                None
            } else {
                Some(display_time(notif@.timeout) as u64)
            }),
    {
        let close_previous = self.current_notification.is_some();
        let duration = timeout_duration(notif.timeout);
        let ghost before = self.notification_history@;
        self.current_notification = Some(
            ShownNotification { notification_info: notif.clone(), timeout_duration: duration },
        );
        let expire_after_ms = if duration != -1 {
            Some(duration as u64)
        } else {
            None
        };
        self.notification_history.push(notif);
        assert(notifications_view(self.notification_history@) =~= notifications_view(before).push(
            notif@,
        ));
        PopupPlan { close_previous, expire_after_ms }
    }

    /// The display time ran out: nothing is on screen any more.
    pub fn notification_expired(&mut self)
        ensures
            final(self)@ == expired_model(old(self)@),
    {
        self.current_notification = None;
    }

    /// All notifications received so far, oldest first.
    pub fn history(&self) -> (h: &Vec<NotificationInfo>)
        ensures
            notifications_view(h@) == self@.history,
    {
        &self.notification_history
    }

    /// The notification on screen, if any.
    pub fn current(&self) -> (c: &Option<ShownNotification>)
        ensures
            self@.current == (match *c {
                Some(s) => Some((s.notification_info@, s.timeout_duration)),
                None => None,
            }),
    {
        &self.current_notification
    }
}

/// The history records every notification in the order received, and the last
/// one received is the one shown until its time runs out.
pub proof fn lemma_history_is_log(s: NotificationServerModel, ns: Seq<NotificationModel>)
    ensures
        history_after(s, ns).history == s.history + ns,
        ns.len() > 0 ==> history_after(s, ns).current == Some(
            (ns.last(), display_time(ns.last().timeout)),
        ),
    decreases ns.len(),
{
    if ns.len() > 0 {
        lemma_history_is_log(s, ns.drop_last());
        assert(s.history + ns.drop_last().push(ns.last()) =~= s.history + ns);
        assert(ns.drop_last().push(ns.last()) =~= ns);
    } else {
        assert(s.history + ns =~= s.history);
    }
}

/// The popup state after receiving the notifications `ns` in order.
pub open spec fn history_after(s: NotificationServerModel, ns: Seq<NotificationModel>) -> NotificationServerModel
    decreases ns.len(),
{
    if ns.len() == 0 {
        s
    } else {
        new_notif_model(history_after(s, ns.drop_last()), ns.last())
    }
}

/// A notification stays for ever exactly when it asks for a display time of 0;
/// otherwise it stays for a positive number of milliseconds.
pub proof fn lemma_display_time(timeout: i32)
    ensures
        (display_time(timeout) == -1) <==> (timeout == 0),
        timeout != 0 ==> display_time(timeout) > 0,
        timeout > 0 ==> display_time(timeout) == timeout,
{
}

} // verus!
