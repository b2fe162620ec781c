use vstd::prelude::*;

verus! {

/// The state of one workspace button of the bar.
#[derive(Clone, Copy)]
pub struct WorkspaceButton {
    /// The workspace (counted from 1) that a click on the button focuses.
    pub pos: i32,
    /// Whether the button is marked as the active workspace.
    pub active: bool,
    /// Whether the button is drawn in overview style.
    pub overview: bool,
}

/// The workspace buttons at the start of the bar, one per workspace of the monitor.
pub struct StartWidget {
    buttons: Vec<WorkspaceButton>,
}

/// How many buttons a workspace change removed from the end and appended.
#[derive(Clone, Copy)]
pub struct ButtonChanges {
    pub removed: usize,
    pub added: usize,
}

/// A button for workspace `k + 1`, added at position `k`.
pub open spec fn new_button(k: int) -> WorkspaceButton {
    WorkspaceButton { pos: (k + 1) as i32, active: false, overview: false }
}

/// The buttons after resizing to `total` workspaces: surplus buttons are removed
/// from the end (all of them when `total` is not positive), and missing ones are
/// appended with the next workspace numbers.
pub open spec fn resized_buttons(bs: Seq<WorkspaceButton>, total: i32) -> Seq<WorkspaceButton> {
    if total <= 0 {
        seq![]
    } else if total <= bs.len() {
        bs.take(total as int)
    } else {
        bs + Seq::new((total - bs.len()) as nat, |j: int| new_button(bs.len() + j))
    }
}

/// The buttons with button `i` marked active exactly when it is that of workspace `active`.
pub open spec fn mark_active(bs: Seq<WorkspaceButton>, active: i32) -> Seq<WorkspaceButton> {
    Seq::new(
        bs.len(),
        |i: int| WorkspaceButton { active: i + 1 == active, ..bs[i] },
    )
}

/// The buttons after the workspaces of the monitor changed.
pub open spec fn workspace_changed_model(
    bs: Seq<WorkspaceButton>,
    active: i32,
    total: i32,
) -> Seq<WorkspaceButton> {
    mark_active(resized_buttons(bs, total), active)
}

/// The buttons with the overview style set to `is_open`.
pub open spec fn overview_model(bs: Seq<WorkspaceButton>, is_open: bool) -> Seq<WorkspaceButton> {
    Seq::new(bs.len(), |i: int| WorkspaceButton { overview: is_open, ..bs[i] })
}

impl View for StartWidget {
    type V = Seq<WorkspaceButton>;

    closed spec fn view(&self) -> Seq<WorkspaceButton> {
        self.buttons@
    }
}

/// Buttons are numbered from 1 in order, and there are never more than `i32::MAX`.
pub open spec fn buttons_numbered(bs: Seq<WorkspaceButton>) -> bool {
    &&& bs.len() <= i32::MAX
    &&& forall|i: int| 0 <= i < bs.len() ==> #[trigger] bs[i].pos == i + 1
}

impl StartWidget {
    #[verifier::type_invariant]
    spec fn well_formed(self) -> bool {
        buttons_numbered(self.buttons@)
    }

    /// A start widget without buttons.
    pub fn init() -> (w: Self)
        ensures
            w@ == Seq::<WorkspaceButton>::empty(),
    {
        StartWidget { buttons: Vec::new() }
    }

    /// The current buttons, in order.
    pub fn buttons(&self) -> (bs: &Vec<WorkspaceButton>)
        ensures
            bs@ == self@,
            buttons_numbered(self@),
    {
        proof {
            use_type_invariant(self);
        }
        &self.buttons
    }

    /// The number of buttons.
    pub fn button_count(&self) -> (n: usize)
        ensures
            n == self@.len(),
            n <= i32::MAX,
    {
        proof {
            use_type_invariant(self);
        }
        self.buttons.len()
    }

    /// Brings the buttons in line with `total_workspaces` workspaces and marks the
    /// button of `active_workspace` (counted from 1) as active.
    pub fn workspace_changed(&mut self, active_workspace: i32, total_workspaces: i32) -> (c:
        ButtonChanges)
        requires
            active_workspace > i32::MIN || total_workspaces <= 0,
            total_workspaces - old(self)@.len() > i32::MIN,
        ensures
            final(self)@ == workspace_changed_model(old(self)@, active_workspace, total_workspaces),
            buttons_numbered(final(self)@),
            c.removed == (if old(self)@.len() > final(self)@.len() {
                old(self)@.len() - final(self)@.len()
            } else {
                0
            }),
            c.added == (if final(self)@.len() > old(self)@.len() {
                final(self)@.len() - old(self)@.len()
            } else {
                0
            }),
    {
        proof {
            use_type_invariant(&*self);
        }
        let mut buttons: Vec<WorkspaceButton> = Vec::new();
        std::mem::swap(&mut buttons, &mut self.buttons);
        let ghost start = buttons@;
        let len = buttons.len() as i32;
        let d = total_workspaces - len;
        let dif: i32 = if d < 0 { -d } else { d };
        let mut removed: usize = 0;
        let mut added: usize = 0;
        if len > total_workspaces {
            let mut k: i32 = 0;
            while k < dif && buttons.len() > 0
                invariant
                    0 <= k <= dif,
                    dif == len - total_workspaces,
                    len == start.len(),
                    buttons@.len() == start.len() - k,
                    buttons@ == start.take(buttons@.len() as int),
                    removed == k,
                decreases dif - k,
            {
                buttons.pop();
                k = k + 1;
                removed = removed + 1;
            }
            assert(buttons@ =~= resized_buttons(start, total_workspaces));
        }
        if total_workspaces > len {
            let mut k: i32 = 0;
            while k < dif
                invariant
                    0 <= k <= dif,
                    dif == total_workspaces - len,
                    len == start.len(),
                    buttons@.len() == start.len() + k,
                    buttons@ =~= start + Seq::new(k as nat, |j: int| new_button(start.len() + j)),
                    added == k,
                decreases dif - k,
            {
                let pos = (buttons.len() + 1) as i32;
                buttons.push(WorkspaceButton { pos, active: false, overview: false });
                k = k + 1;
                added = added + 1;
            }
            assert(buttons@ =~= resized_buttons(start, total_workspaces));
        }
        if len == total_workspaces {
            assert(buttons@ =~= resized_buttons(start, total_workspaces));
        }
        let ghost resized = buttons@;
        assert(removed == (if start.len() > resized.len() { start.len() - resized.len() } else { 0 }));
        assert(added == (if resized.len() > start.len() { resized.len() - start.len() } else { 0 }));
        let n = buttons.len();
        let mut i: usize = 0;
        while i < n
            invariant
                n == resized.len(),
                n <= i32::MAX,
                buttons@.len() == n,
                i <= n,
                forall|j: int| 0 <= j < i ==> buttons@[j] == mark_active(resized, active_workspace)[j],
                forall|j: int| i <= j < n ==> buttons@[j] == resized[j],
            decreases n - i,
        {
            let b = buttons[i];
            let is_active = (i as i64) + 1 == (active_workspace as i64);
            buttons.set(i, WorkspaceButton { pos: b.pos, active: is_active, overview: b.overview });
            i = i + 1;
        }
        assert(buttons@ =~= workspace_changed_model(start, active_workspace, total_workspaces));
        self.buttons = buttons;
        ButtonChanges { removed, added }
    }

    /// Draws every button in overview style when the overview opens, and in the
    /// normal style when it closes.
    pub fn set_overview_state(&mut self, is_open: bool)
        ensures
            final(self)@ == overview_model(old(self)@, is_open),
    {
        proof {
            use_type_invariant(&*self);
        }
        let mut buttons: Vec<WorkspaceButton> = Vec::new();
        std::mem::swap(&mut buttons, &mut self.buttons);
        let ghost start = buttons@;
        let n = buttons.len();
        let mut i: usize = 0;
        while i < n
            invariant
                n == start.len(),
                buttons@.len() == n,
                i <= n,
                forall|j: int| 0 <= j < i ==> buttons@[j] == overview_model(start, is_open)[j],
                forall|j: int| i <= j < n ==> buttons@[j] == start[j],
            decreases n - i,
        {
            let b = buttons[i];
            buttons.set(i, WorkspaceButton { pos: b.pos, active: b.active, overview: is_open });
            i = i + 1;
        }
        assert(buttons@ =~= overview_model(start, is_open));
        self.buttons = buttons;
    }
}

/// After a workspace change there is one button per workspace (none when the
/// count is not positive), numbered from 1; the button of the active workspace is
/// the only one marked active, and one is marked exactly when the active number is
/// between 1 and the count; buttons that stay keep their overview style and new
/// ones are drawn in the normal style.
pub proof fn lemma_workspace_changed_shape(bs: Seq<WorkspaceButton>, active: i32, total: i32)
    requires
        buttons_numbered(bs),
    ensures
        ({
            let r = workspace_changed_model(bs, active, total);
            &&& r.len() == (if total > 0 { total as int } else { 0 })
            &&& buttons_numbered(r)
            &&& forall|i: int| 0 <= i < r.len() ==> (#[trigger] r[i].active <==> i + 1 == active)
            &&& forall|i: int, j: int|
                0 <= i < r.len() && 0 <= j < r.len() && #[trigger] r[i].active && #[trigger] r[j].active
                    ==> i == j
            &&& (1 <= active <= r.len()) <==> (exists|i: int| 0 <= i < r.len() && #[trigger] r[i].active)
            &&& forall|i: int| 0 <= i < r.len() && i < bs.len() ==> #[trigger] r[i].overview == bs[i].overview
            &&& forall|i: int| bs.len() <= i < r.len() ==> !(#[trigger] r[i].overview)
        }),
{
    let r = workspace_changed_model(bs, active, total);
    let m = resized_buttons(bs, total);
    assert forall|i: int| 0 <= i < r.len() implies #[trigger] r[i].pos == i + 1 by {
        if i < bs.len() {
            assert(m[i] == bs[i]);
        }
    }
    if 1 <= active <= r.len() {
        assert(r[active - 1].active);
    }
    assert forall|i: int| 0 <= i < r.len() && i < bs.len() implies #[trigger] r[i].overview
        == bs[i].overview by {
        assert(m[i] == bs[i]);
    }
}

/// After the overview opens or closes every button has the matching style, and
/// nothing else about the buttons changes.
pub proof fn lemma_overview_applies_to_all(bs: Seq<WorkspaceButton>, is_open: bool)
    ensures
        ({
            let r = overview_model(bs, is_open);
            &&& r.len() == bs.len()
            &&& forall|i: int| 0 <= i < r.len() ==> #[trigger] r[i].overview == is_open
            &&& forall|i: int| 0 <= i < r.len() ==> r[i].pos == bs[i].pos && r[i].active == bs[i].active
        }),
{
}

/// Repeating a workspace change with the same numbers changes nothing more: no
/// button is added or removed and the marks stay as they are.
pub proof fn lemma_workspace_changed_idempotent(bs: Seq<WorkspaceButton>, active: i32, total: i32)
    ensures
        workspace_changed_model(workspace_changed_model(bs, active, total), active, total)
            == workspace_changed_model(bs, active, total),
        resized_buttons(workspace_changed_model(bs, active, total), total).len()
            == workspace_changed_model(bs, active, total).len(),
{
    let r = workspace_changed_model(bs, active, total);
    let r2 = workspace_changed_model(r, active, total);
    if total > 0 {
        assert(resized_buttons(r, total) =~= r);
    } else {
        assert(resized_buttons(r, total) =~= r);
    }
    assert(r2 =~= r);
}

} // verus!
