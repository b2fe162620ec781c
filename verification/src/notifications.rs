use vstd::prelude::*;

use crate::events::{BarEvent, BarEventModel, NotificationModel};

verus! {

/// The notification service: hands out notification ids and turns incoming
/// notifications into events for the popup.
pub struct NotificationDaemon {
    counter: u32,
}

impl View for NotificationDaemon {
    type V = u32;

    /// The last id handed out to a new notification (0 before the first).
    closed spec fn view(&self) -> u32 {
        self.counter
    }
}

/// The id of a notification and the new counter: a notification that replaces
/// another keeps its id; any other gets the next number.
pub open spec fn assign_id(counter: u32, replaces_id: u32) -> (u32, u32) {
    if replaces_id != 0 {
        (replaces_id, counter)
    } else {
        ((counter + 1) as u32, (counter + 1) as u32)
    }
}

/// The name, vendor, version and specification version the service reports.
pub open spec fn server_information_model() -> (Seq<char>, Seq<char>, Seq<char>, Seq<char>) {
    ("grr-notification-daemon"@, "grr"@, "0.1"@, "1.2"@)
}

impl NotificationDaemon {
    /// A service that has handed out no id yet.
    pub fn new() -> (d: Self)
        ensures
            d@ == 0,
    {
        NotificationDaemon { counter: 0 }
    }

    /// The last id handed out to a new notification.
    pub fn counter(&self) -> (c: u32)
        ensures
            c == self@,
    {
        self.counter
    }

    /// The optional features the service supports: only message bodies.
    pub fn get_capabilities(&self) -> (caps: Vec<String>)
        ensures
            caps@.len() == 1,
            caps@[0]@ == "body"@,
    {
        let mut caps = Vec::new();
        caps.push(String::from_str("body"));
        caps
    }

    /// The name, vendor, version and specification version of the service.
    pub fn get_server_information(&self) -> (info: (String, String, String, String))
        ensures
            (info.0@, info.1@, info.2@, info.3@) == server_information_model(),
    {
        (
            String::from_str("grr-notification-daemon"),
            String::from_str("grr"),
            String::from_str("0.1"),
            String::from_str("1.2"),
        )
    }

    /// Receives a notification: returns the event that shows it and its id.
    pub fn notify(
        &mut self,
        app_name: String,
        replaces_id: u32,
        app_icon: String,
        summary: String,
        body: String,
        expire_timeout: i32,
    ) -> (r: (BarEvent, u32))
        requires
            replaces_id != 0 || old(self)@ < u32::MAX,
        ensures
            r.0@ == BarEventModel::Notification(
                NotificationModel {
                    app_name: app_name@,
                    app_icon: app_icon@,
                    summary: summary@,
                    body: body@,
                    timeout: expire_timeout,
                },
            ),
            (r.1, final(self)@) == assign_id(old(self)@, replaces_id),
    {
        let event = BarEvent::Notification(
            crate::events::NotificationInfo {
                app_name,
                app_icon,
                summary,
                body,
                timeout: expire_timeout,
            },
        );
        let id = if replaces_id != 0 {
            replaces_id
        } else {
            self.counter = self.counter + 1;
            self.counter
        };
        (event, id)
    }

    /// Closing a notification on request does nothing.
    pub fn close_notification(&self, _id: u32) {
    }
}

/// Ids handed to new notifications strictly increase: one handed out after
/// another new notification, whatever replacements came in between, is larger.
pub proof fn lemma_new_ids_increase(counter: u32, replaced: Seq<u32>)
    requires
        counter < u32::MAX - 1,
        forall|i: int| 0 <= i < replaced.len() ==> replaced[i] != 0,
    ensures
        ({
            let (first, c1) = assign_id(counter, 0);
            let c2 = counter_after(c1, replaced);
            let (second, _) = assign_id(c2, 0);
            first < second && c2 == c1
        }),
    decreases replaced.len(),
{
    if replaced.len() > 0 {
        lemma_new_ids_increase(counter, replaced.drop_last());
    }
}

/// The counter after a sequence of notifications with the given `replaces_id`s.
pub open spec fn counter_after(counter: u32, replaces: Seq<u32>) -> u32
    decreases replaces.len(),
{
    if replaces.len() == 0 {
        counter
    } else {
        assign_id(counter_after(counter, replaces.drop_last()), replaces.last()).1
    }
}

/// A notification that replaces another keeps that id and leaves the counter alone.
pub proof fn lemma_replacement_keeps_id(counter: u32, replaces_id: u32)
    requires
        replaces_id != 0,
    ensures
        assign_id(counter, replaces_id) == (replaces_id, counter),
{
}

} // verus!
