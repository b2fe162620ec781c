use vstd::prelude::*;

verus! {

/// A desktop notification as received over the notification interface.
pub struct NotificationInfo {
    pub app_name: String,
    pub app_icon: String,
    pub summary: String,
    pub body: String,
    pub timeout: i32,
}

/// The contents of a notification, with its texts as character sequences.
pub struct NotificationModel {
    pub app_name: Seq<char>,
    pub app_icon: Seq<char>,
    pub summary: Seq<char>,
    pub body: Seq<char>,
    pub timeout: i32,
}

impl View for NotificationInfo {
    type V = NotificationModel;

    open spec fn view(&self) -> NotificationModel {
        NotificationModel {
            app_name: self.app_name@,
            app_icon: self.app_icon@,
            summary: self.summary@,
            body: self.body@,
            timeout: self.timeout,
        }
    }
}

impl Clone for NotificationInfo {
    fn clone(&self) -> (r: Self)
        ensures
            r@ == self@,
    {
        NotificationInfo {
            app_name: self.app_name.clone(),
            app_icon: self.app_icon.clone(),
            summary: self.summary.clone(),
            body: self.body.clone(),
            timeout: self.timeout,
        }
    }
}

/// What the services report to the bars, the notification popup and the launcher.
pub enum BarEvent {
    /// (active workspace index, number of workspaces, output name)
    WorkspaceChanged(i32, i32, String),
    /// Whether the overview is now open.
    OverviewToggled(bool),
    Notification(NotificationInfo),
    ToggleLauncher(),
}

/// A `BarEvent` with its texts as character sequences.
pub enum BarEventModel {
    WorkspaceChanged(i32, i32, Seq<char>),
    OverviewToggled(bool),
    Notification(NotificationModel),
    ToggleLauncher,
}

impl View for BarEvent {
    type V = BarEventModel;

    open spec fn view(&self) -> BarEventModel {
        match self {
            BarEvent::WorkspaceChanged(active, total, output) => BarEventModel::WorkspaceChanged(
                *active,
                *total,
                output@,
            ),
            BarEvent::OverviewToggled(is_open) => BarEventModel::OverviewToggled(*is_open),
            BarEvent::Notification(info) => BarEventModel::Notification(info@),
            BarEvent::ToggleLauncher() => BarEventModel::ToggleLauncher,
        }
    }
}

/// The views of a sequence of events.
pub open spec fn events_view(events: Seq<BarEvent>) -> Seq<BarEventModel> {
    events.map_values(|e: BarEvent| e@)
}

} // verus!
