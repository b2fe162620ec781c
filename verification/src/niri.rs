use vstd::prelude::*;

use crate::events::{BarEvent, BarEventModel, events_view};
use crate::text::opt_string_view;

verus! {

/// What the bar keeps of a workspace reported by the compositor.
pub struct WorkspaceInfo {
    /// Unique id of the workspace.
    pub id: u64,
    /// Position of the workspace on its output.
    pub idx: u8,
    /// Name of the output the workspace is on, if any.
    pub output: Option<String>,
    /// Whether the workspace is the visible one on its output.
    pub is_active: bool,
}

/// A workspace with its output name as a character sequence.
pub struct WorkspaceModel {
    pub id: u64,
    pub idx: u8,
    pub output: Option<Seq<char>>,
    pub is_active: bool,
}

impl View for WorkspaceInfo {
    type V = WorkspaceModel;

    open spec fn view(&self) -> WorkspaceModel {
        WorkspaceModel {
            id: self.id,
            idx: self.idx,
            output: opt_string_view(self.output),
            is_active: self.is_active,
        }
    }
}

/// The views of a sequence of workspaces.
pub open spec fn workspaces_view(ws: Seq<WorkspaceInfo>) -> Seq<WorkspaceModel> {
    ws.map_values(|w: WorkspaceInfo| w@)
}

/// The compositor events that the bar reacts to; all others are `Other`.
pub enum NiriEvent {
    OverviewOpenedOrClosed { is_open: bool },
    WorkspacesChanged { workspaces: Vec<WorkspaceInfo> },
    WorkspaceActivated { id: u64, focused: bool },
    Other,
}

/// A compositor event with its workspaces as models.
pub enum NiriEventModel {
    OverviewOpenedOrClosed(bool),
    WorkspacesChanged(Seq<WorkspaceModel>),
    WorkspaceActivated(u64),
    Other,
}

impl View for NiriEvent {
    type V = NiriEventModel;

    open spec fn view(&self) -> NiriEventModel {
        match self {
            NiriEvent::OverviewOpenedOrClosed { is_open } => NiriEventModel::OverviewOpenedOrClosed(
                *is_open,
            ),
            NiriEvent::WorkspacesChanged { workspaces } => NiriEventModel::WorkspacesChanged(
                workspaces_view(workspaces@),
            ),
            NiriEvent::WorkspaceActivated { id, focused: _ } => NiriEventModel::WorkspaceActivated(
                *id,
            ),
            NiriEvent::Other => NiriEventModel::Other,
        }
    }
}

/// The number of workspaces as the bar reports it (the count taken as an `i32`).
pub open spec fn workspace_total(n: nat) -> i32 {
    n as i32
}

/// The event that announces workspace `w` as the active one on its output.
pub open spec fn workspace_changed_event(w: WorkspaceModel, total: i32) -> BarEventModel {
    BarEventModel::WorkspaceChanged(w.idx as i32, total, w.output->0)
}

/// Whether workspace `w` is announced when the workspace list changes.
pub open spec fn is_announced(w: WorkspaceModel) -> bool {
    w.is_active && w.output is Some
}

/// The announcements for a new workspace list: one for each active workspace that
/// is on an output, in list order.
pub open spec fn active_workspace_events(ws: Seq<WorkspaceModel>, total: i32) -> Seq<
    BarEventModel,
>
    decreases ws.len(),
{
    if ws.len() == 0 {
        seq![]
    } else {
        let prev = active_workspace_events(ws.drop_last(), total);
        if is_announced(ws.last()) {
            prev.push(workspace_changed_event(ws.last(), total))
        } else {
            prev
        }
    }
}

/// The position of the first workspace at or after `i` whose id is `id`, or -1.
pub open spec fn find_workspace(ws: Seq<WorkspaceModel>, id: u64, i: nat) -> int
    decreases ws.len() - i,
{
    if i >= ws.len() {
        -1
    } else if ws[i as int].id == id {
        i as int
    } else {
        find_workspace(ws, id, i + 1)
    }
}

/// The announcement for the activation of workspace `id`: that of the first
/// tracked workspace with this id, if it is on an output.
pub open spec fn activation_events(ws: Seq<WorkspaceModel>, id: u64) -> Seq<BarEventModel> {
    let k = find_workspace(ws, id, 0);
    if k >= 0 && ws[k].output is Some {
        seq![workspace_changed_event(ws[k], workspace_total(ws.len()))]
    } else {
        seq![]
    }
}

/// One step of the workspace tracker: the new list of tracked workspaces and the
/// events to send.
pub open spec fn tracker_step(ws: Seq<WorkspaceModel>, event: NiriEventModel) -> (
    Seq<WorkspaceModel>,
    Seq<BarEventModel>,
) {
    match event {
        NiriEventModel::OverviewOpenedOrClosed(is_open) => (
            ws,
            seq![BarEventModel::OverviewToggled(is_open)],
        ),
        NiriEventModel::WorkspacesChanged(new_ws) => (
            new_ws,
            active_workspace_events(new_ws, workspace_total(new_ws.len())),
        ),
        NiriEventModel::WorkspaceActivated(id) => (ws, activation_events(ws, id)),
        NiriEventModel::Other => (ws, seq![]),
    }
}

/// The list of workspaces last reported by the compositor.
pub struct WorkspaceTracker {
    current_workspaces: Vec<WorkspaceInfo>,
}

impl View for WorkspaceTracker {
    type V = Seq<WorkspaceModel>;

    closed spec fn view(&self) -> Seq<WorkspaceModel> {
        workspaces_view(self.current_workspaces@)
    }
}

impl WorkspaceTracker {
    /// A tracker that knows no workspace yet.
    pub fn new() -> (t: Self)
        ensures
            t@ == Seq::<WorkspaceModel>::empty(),
    {
        let t = WorkspaceTracker { current_workspaces: Vec::new() };
        assert(t@ =~= Seq::<WorkspaceModel>::empty());
        t
    }

    /// Updates the tracked workspaces with a compositor event and returns the
    /// events to send to the bars, in order.
    pub fn handle_event(&mut self, event: NiriEvent) -> (events: Vec<BarEvent>)
        ensures
            (final(self)@, events_view(events@)) == tracker_step(old(self)@, event@),
    {
        match event {
            NiriEvent::OverviewOpenedOrClosed { is_open } => {
                let mut events = Vec::new();
                events.push(BarEvent::OverviewToggled(is_open));
                assert(events_view(events@) =~= seq![BarEventModel::OverviewToggled(is_open)]);
                events
            },
            NiriEvent::WorkspacesChanged { workspaces } => {
                self.current_workspaces = workspaces;
                self.announce_active()
            },
            NiriEvent::WorkspaceActivated { id, focused: _ } => self.announce_activated(id),
            NiriEvent::Other => {
                let events = Vec::new();
                assert(events_view(events@) =~= Seq::<BarEventModel>::empty());
                events
            },
        }
    }

    fn announce_active(&self) -> (events: Vec<BarEvent>)
        ensures
            events_view(events@) == active_workspace_events(self@, workspace_total(self@.len())),
    {
        let ghost ws = self@;
        let n = self.current_workspaces.len();
        let total = #[verifier::truncate] (n as i32);
        let mut events: Vec<BarEvent> = Vec::new();
        let mut i: usize = 0;
        while i < n
            invariant
                n == self.current_workspaces@.len(),
                ws == self@,
                ws.len() == n,
                total == workspace_total(n as nat),
                i <= n,
                events_view(events@) == active_workspace_events(ws.take(i as int), total),
            decreases n - i,
        {
            let w = &self.current_workspaces[i];
            proof {
                assert(ws.take(i + 1).drop_last() =~= ws.take(i as int));
                assert(ws.take(i + 1).last() == ws[i as int]);
                assert(ws[i as int] == w@);
            }
            if w.is_active {
                match &w.output {
                    Some(output_name) => {
                        let ghost before = events@;
                        events.push(BarEvent::WorkspaceChanged(w.idx as i32, total, output_name.clone()));
                        assert(events@ =~= before.push(events@.last()));
                        assert(events_view(events@) =~= events_view(before).push(events@.last()@));
                    },
                    None => {},
                }
            }
            i = i + 1;
        }
        assert(ws.take(n as int) =~= ws);
        events
    }

    fn announce_activated(&self, id: u64) -> (events: Vec<BarEvent>)
        ensures
            events_view(events@) == activation_events(self@, id),
    {
        let ghost ws = self@;
        let n = self.current_workspaces.len();
        let mut i: usize = 0;
        while i < n
            invariant
                n == self.current_workspaces@.len(),
                ws == self@,
                ws.len() == n,
                i <= n,
                find_workspace(ws, id, 0) == find_workspace(ws, id, i as nat),
            ensures
                i <= n,
                find_workspace(ws, id, 0) == find_workspace(ws, id, i as nat),
                i < n ==> self.current_workspaces@[i as int].id == id,
            decreases n - i,
        {
            if self.current_workspaces[i].id == id {
                break;
            }
            i = i + 1;
        }
        let mut events: Vec<BarEvent> = Vec::new();
        if i < n {
            let w = &self.current_workspaces[i];
            assert(ws[i as int] == w@);
            assert(find_workspace(ws, id, 0) == i);
            match &w.output {
                Some(output_name) => {
                    events.push(BarEvent::WorkspaceChanged(w.idx as i32, #[verifier::truncate] (n as i32), output_name.clone()));
                },
                None => {},
            }
        }
        if i >= n {
            assert(find_workspace(ws, id, 0) == -1);
        }
        assert(events_view(events@) =~= activation_events(ws, id));
        events
    }
}

/// The workspace index sent to the compositor to focus workspace `workspace_idx`
/// (counted from 1): the number taken as a byte.
pub fn focus_workspace_index(workspace_idx: i32) -> (idx: u8)
    ensures
        idx == workspace_idx as u8,
{
    #[verifier::truncate]
    (workspace_idx as u8)
}

/// Every announcement made for a new workspace list reports the list's length as
/// the number of workspaces and concerns an active workspace that is on an output;
/// there is exactly one per such workspace, so never more than there are workspaces.
pub proof fn lemma_announcements_match_active(ws: Seq<WorkspaceModel>, total: i32)
    ensures
        active_workspace_events(ws, total).len() == ws.filter(|w: WorkspaceModel| is_announced(w)).len(),
        active_workspace_events(ws, total).len() <= ws.len(),
        forall|k: int|
            0 <= k < active_workspace_events(ws, total).len() ==> exists|j: int|
                0 <= j < ws.len() && is_announced(ws[j]) && #[trigger] active_workspace_events(
                    ws,
                    total,
                )[k] == workspace_changed_event(ws[j], total),
    decreases ws.len(),
{
    reveal_with_fuel(Seq::filter, 1);
    if ws.len() > 0 {
        let init = ws.drop_last();
        lemma_announcements_match_active(init, total);
        assert(ws.filter(|w: WorkspaceModel| is_announced(w)).len() <= ws.len()) by {
            ws.lemma_filter_len(|w: WorkspaceModel| is_announced(w));
        }
        let prev = active_workspace_events(init, total);
        let cur = active_workspace_events(ws, total);
        assert forall|k: int| 0 <= k < cur.len() implies exists|j: int|
            0 <= j < ws.len() && is_announced(ws[j]) && #[trigger] cur[k] == workspace_changed_event(
                ws[j],
                total,
            ) by {
            if k < prev.len() {
                assert(cur[k] == prev[k]);
                let j = choose|j: int|
                    0 <= j < init.len() && is_announced(init[j]) && #[trigger] prev[k]
                        == workspace_changed_event(init[j], total);
                assert(ws[j] == init[j]);
            } else {
                assert(ws[ws.len() - 1] == ws.last());
            }
        }
    }
}

/// The number of workspaces reported for a list is its length (for lists of fewer
/// than 2^31 workspaces).
pub proof fn lemma_workspace_total_is_length(n: nat)
    requires
        n <= i32::MAX,
    ensures
        workspace_total(n) as int == n,
{
}

/// After a new list of fewer than 2^31 workspaces, every announcement reports the
/// list's length as the number of workspaces, and names an active workspace of
/// the list by its index and its output.
pub proof fn lemma_new_list_reports_length(ws: Seq<WorkspaceModel>, new_ws: Seq<WorkspaceModel>)
    requires
        new_ws.len() <= i32::MAX,
    ensures
        forall|k: int|
            0 <= k < tracker_step(ws, NiriEventModel::WorkspacesChanged(new_ws)).1.len() ==> {
                let e = #[trigger] tracker_step(ws, NiriEventModel::WorkspacesChanged(new_ws)).1[k];
                &&& e matches BarEventModel::WorkspaceChanged(active, total, output)
                &&& total as int == new_ws.len()
                &&& exists|j: int|
                    0 <= j < new_ws.len() && new_ws[j].is_active && new_ws[j].output == Some(output)
                        && active as int == new_ws[j].idx as int
            },
{
    let total = workspace_total(new_ws.len());
    lemma_announcements_match_active(new_ws, total);
    let evs = tracker_step(ws, NiriEventModel::WorkspacesChanged(new_ws)).1;
    assert forall|k: int| 0 <= k < evs.len() implies {
        let e = #[trigger] evs[k];
        &&& e matches BarEventModel::WorkspaceChanged(active, total, output)
        &&& total as int == new_ws.len()
        &&& exists|j: int|
            0 <= j < new_ws.len() && new_ws[j].is_active && new_ws[j].output == Some(output)
                && active as int == new_ws[j].idx as int
    } by {
        let j = choose|j: int|
            0 <= j < new_ws.len() && is_announced(new_ws[j]) && #[trigger] active_workspace_events(
                new_ws,
                total,
            )[k] == workspace_changed_event(new_ws[j], total);
        assert(new_ws[j].is_active && new_ws[j].output == Some(new_ws[j].output->0));
    }
}

/// Activating a tracked workspace that is on an output announces it with its index,
/// its output and the number of tracked workspaces (for fewer than 2^31 of them).
pub proof fn lemma_activation_reports_length(ws: Seq<WorkspaceModel>, id: u64, j: int)
    requires
        ws.len() <= i32::MAX,
        0 <= j < ws.len(),
        ws[j].id == id,
        forall|k: int| 0 <= k < j ==> ws[k].id != id,
        ws[j].output is Some,
    ensures
        tracker_step(ws, NiriEventModel::WorkspaceActivated(id)).1 == seq![
            BarEventModel::WorkspaceChanged(ws[j].idx as i32, ws.len() as i32, ws[j].output->0),
        ],
        ws.len() as i32 as int == ws.len(),
        ws[j].idx as i32 as int == ws[j].idx as int,
{
    lemma_find_first(ws, id, j, 0);
}

/// Only a new workspace list changes the tracked workspaces; the overview, an
/// activation or any other event leaves them as they were.
pub proof fn lemma_only_workspace_lists_change_state(ws: Seq<WorkspaceModel>, event: NiriEventModel)
    ensures
        !(event is WorkspacesChanged) ==> tracker_step(ws, event).0 == ws,
        event matches NiriEventModel::WorkspacesChanged(new_ws) ==> tracker_step(ws, event).0 == new_ws,
{
}

/// After a new workspace list, activating a workspace of it that is on an output
/// announces that workspace with the length of the list; activating an unknown
/// id announces nothing.
pub proof fn lemma_activation_after_list(ws: Seq<WorkspaceModel>, new_ws: Seq<WorkspaceModel>, id: u64, j: int)
    requires
        0 <= j < new_ws.len(),
        new_ws[j].id == id,
        forall|k: int| 0 <= k < j ==> new_ws[k].id != id,
        new_ws[j].output is Some,
    ensures
        ({
            let after = tracker_step(ws, NiriEventModel::WorkspacesChanged(new_ws)).0;
            tracker_step(after, NiriEventModel::WorkspaceActivated(id)).1 == seq![
                workspace_changed_event(new_ws[j], workspace_total(new_ws.len())),
            ]
        }),
{
    lemma_find_first(new_ws, id, j, 0);
}

/// Activating an id that no tracked workspace has announces nothing.
pub proof fn lemma_unknown_activation_silent(ws: Seq<WorkspaceModel>, id: u64)
    requires
        forall|k: int| 0 <= k < ws.len() ==> ws[k].id != id,
    ensures
        tracker_step(ws, NiriEventModel::WorkspaceActivated(id)).1 == Seq::<BarEventModel>::empty(),
{
    lemma_find_none(ws, id, 0);
}

proof fn lemma_find_first(ws: Seq<WorkspaceModel>, id: u64, j: int, i: nat)
    requires
        i <= j < ws.len(),
        ws[j].id == id,
        forall|k: int| 0 <= k < j ==> ws[k].id != id,
    ensures
        find_workspace(ws, id, i) == j,
    decreases j - i,
{
    if i < j {
        lemma_find_first(ws, id, j, i + 1);
    }
}

proof fn lemma_find_none(ws: Seq<WorkspaceModel>, id: u64, i: nat)
    requires
        forall|k: int| 0 <= k < ws.len() ==> ws[k].id != id,
    ensures
        find_workspace(ws, id, i) == -1,
    decreases ws.len() - i,
{
    if i < ws.len() {
        lemma_find_none(ws, id, i + 1);
    }
}

} // verus!
