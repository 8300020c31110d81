use vstd::prelude::*;
use crate::activity::{Activity, ActivityId, ActivityKind, FileId};
use crate::context_menu::ContextMenuState;

verus! {

/// Height, in pixels, that the tab bar reserves at the top of the panel;
/// the active activity's content gets the rest.
pub const TAB_HEIGHT: u32 = 48;

/// The one message the panel's command stream carries: a request to open
/// (or re-focus) the editor for a file.
#[derive(Clone, Copy, PartialEq, Eq, Structural, Debug)]
pub enum WorkspaceCommand {
    OpenFile(FileId),
}

/// Mathematical state of the panel: the ordered tab sequence, the
/// selection pointer, the next activity handle to be minted, and the
/// context-menu widget state the panel owns.
#[verifier::ext_equal]
pub struct PanelView {
    pub activities: Seq<Activity>,
    pub active: Option<ActivityId>,
    pub next_id: u64,
    pub menu: ContextMenuState,
}

impl PanelView {
    /// `id` is the identity of some member of the tab sequence.
    pub open spec fn contains_id(self, id: ActivityId) -> bool {
        exists|i: int| 0 <= i < self.activities.len() && self.activities[i].id == id
    }

    /// Index of the member carrying `id` (meaningful when `contains_id`).
    pub open spec fn index_of(self, id: ActivityId) -> int {
        choose|i: int| 0 <= i < self.activities.len() && self.activities[i].id == id
    }

    /// Some member is an editor for the file `f`.
    pub open spec fn has_editor(self, f: FileId) -> bool {
        exists|i: int| 0 <= i < self.activities.len() && self.activities[i].is_editor_for(f)
    }

    /// Index of the editor for `f` (meaningful when `has_editor`).
    pub open spec fn editor_index(self, f: FileId) -> int {
        choose|i: int| 0 <= i < self.activities.len() && self.activities[i].is_editor_for(f)
    }

    /// No two members share an activity handle.
    pub open spec fn ids_unique(self) -> bool {
        forall|i: int, j: int|
            0 <= i < j < self.activities.len() ==> self.activities[i].id != self.activities[j].id
    }

    /// No two members are editors for the same file: opening is the only
    /// way an editor appears, and it reuses an existing editor.
    pub open spec fn editors_unique(self) -> bool {
        forall|i: int, j: int, f: FileId|
            0 <= i < j < self.activities.len() ==> !(self.activities[i].is_editor_for(f)
                && self.activities[j].is_editor_for(f))
    }

    /// Every handle already given out is below the next one to be minted,
    /// so a freshly minted handle never collides.
    pub open spec fn ids_below_next(self) -> bool {
        forall|i: int| 0 <= i < self.activities.len() ==> self.activities[i].id.0 < self.next_id
    }

    /// The selection, when present, points at a member of the tab sequence.
    pub open spec fn active_is_member(self) -> bool {
        self.active matches Some(id) ==> self.contains_id(id)
    }

    /// Well-formedness: the invariants every reachable panel state keeps.
    pub open spec fn wf(self) -> bool {
        &&& self.ids_unique()
        &&& self.editors_unique()
        &&& self.ids_below_next()
        &&& self.active_is_member()
    }
}

/// State of a freshly constructed panel: a single welcome activity,
/// which is active, and a hidden context menu.
pub open spec fn init_view() -> PanelView {
    PanelView {
        activities: seq![
            Activity { id: ActivityId(0), kind: ActivityKind::Welcome },
        ],
        active: Some(ActivityId(0)),
        next_id: 1,
        menu: ContextMenuState { show_menu: false, menu_x: 0, menu_y: 0 },
    }
}

/// Effect of an open-file request. If an editor for `f` is already open
/// it becomes active and nothing else changes; otherwise a new editor
/// activity is minted, appended at the end of the tab order, and made
/// active.
pub open spec fn open_file_trans(s: PanelView, f: FileId) -> PanelView
    recommends
        s.next_id < u64::MAX,
{
    if s.has_editor(f) {
        PanelView { active: Some(s.activities[s.editor_index(f)].id), ..s }
    } else {
        let fresh = Activity { id: ActivityId(s.next_id), kind: ActivityKind::Editor(f) };
        PanelView {
            activities: s.activities.push(fresh),
            active: Some(fresh.id),
            next_id: ((s.next_id + 1) as u64),
            ..s
        }
    }
}

/// Effect of selecting a tab: the member carrying `id` becomes active;
/// selecting an identity not present in the panel is a no-op.
pub open spec fn select_trans(s: PanelView, id: ActivityId) -> PanelView {
    if s.contains_id(id) {
        PanelView { active: Some(id), ..s }
    } else {
        s
    }
}

/// Effect of closing a tab: the member carrying `id` is removed; if it
/// was the active one, the first remaining member (tab order) becomes
/// active, or the selection empties with the panel. Closing an identity
/// not present is a no-op.
pub open spec fn close_trans(s: PanelView, id: ActivityId) -> PanelView {
    if s.contains_id(id) {
        let remaining = s.activities.remove(s.index_of(id));
        let active = if s.active == Some(id) {
            if remaining.len() == 0 {
                None
            } else {
                Some(remaining[0].id)
            }
        } else {
            s.active
        };
        PanelView { activities: remaining, active, ..s }
    } else {
        s
    }
}

/// Effect of one command from the workspace command stream.
pub open spec fn command_trans(s: PanelView, c: WorkspaceCommand) -> PanelView {
    match c {
        WorkspaceCommand::OpenFile(f) => open_file_trans(s, f),
    }
}

/// The panel: owns the ordered activity collection, the active-activity
/// selection, the counter minting activity handles, and the context-menu
/// state. All mutation goes through the methods below, each a single
/// atomic step of the transition relation.
pub struct ActivityPanel {
    activities: Vec<Activity>,
    active_activity: Option<ActivityId>,
    next_id: u64,
    context_menu_state: ContextMenuState,
}

impl View for ActivityPanel {
    type V = PanelView;

    closed spec fn view(&self) -> PanelView {
        PanelView {
            activities: self.activities@,
            active: self.active_activity,
            next_id: self.next_id,
            menu: self.context_menu_state,
        }
    }
}

impl Default for ActivityPanel {
    /// A panel starts with one welcome activity, already active.
    fn default() -> (p: Self)
        ensures
            p@ == init_view(),
            p@.wf(),
    {
        let welcome = Activity { id: ActivityId(0), kind: ActivityKind::Welcome };
        let p = ActivityPanel {
            activities: vec![welcome],
            active_activity: Some(ActivityId(0)),
            next_id: 1,
            context_menu_state: ContextMenuState::new(),
        };
        proof {
            assert(p@ =~= init_view());
        }
        p
    }
}

impl ActivityPanel {
    /// Open the file `f`: reuse the editor already bound to it, or append
    /// a fresh one; either way that editor becomes the active activity.
    pub fn open_file(&mut self, f: FileId)
        requires
            old(self)@.wf(),
            old(self)@.next_id < u64::MAX,
        ensures
            final(self)@ == open_file_trans(old(self)@, f),
            final(self)@.wf(),
    {
        let n: usize = self.activities.len();
        let mut i: usize = 0;
        while i < n
            invariant
                0 <= i <= n,
                n == self.activities@.len(),
                self@ == old(self)@,
                old(self)@.wf(),
                old(self)@.next_id < u64::MAX,
                forall|k: int| 0 <= k < i ==> !self.activities@[k].is_editor_for(f),
            decreases n - i,
        {
            let a = self.activities[i];
            match a.kind {
                ActivityKind::Editor(g) => {
                    if g == f {
                        proof {
                            let s0 = self@;
                            assert(s0.activities[i as int].is_editor_for(f));
                            assert(s0.has_editor(f));
                            let j = s0.editor_index(f);
                            assert(0 <= j < s0.activities.len()
                                && s0.activities[j].is_editor_for(f));
                            if j != i as int {
                                assert(false);
                            }
                        }
                        self.active_activity = Some(a.id);
                        proof {
                            assert(self@ =~= open_file_trans(old(self)@, f));
                        }
                        return;
                    }
                },
                ActivityKind::Welcome => {},
            }
            i = i + 1;
        }
        proof {
            assert(!self@.has_editor(f));
        }
        let ghost s0 = self@;
        let fresh = Activity { id: ActivityId(self.next_id), kind: ActivityKind::Editor(f) };
        self.activities.push(fresh);
        self.active_activity = Some(fresh.id);
        self.next_id = self.next_id + 1;
        proof {
            assert(self@ =~= open_file_trans(s0, f));
            lemma_open_file_preserves_wf(s0, f);
        }
    }

    /// Process one command from the workspace command stream.
    pub fn apply_command(&mut self, c: WorkspaceCommand)
        requires
            old(self)@.wf(),
            old(self)@.next_id < u64::MAX,
        ensures
            final(self)@ == command_trans(old(self)@, c),
            final(self)@.wf(),
    {
        match c {
            WorkspaceCommand::OpenFile(f) => self.open_file(f),
        }
    }

    /// True while the panel can still mint a handle for a new activity,
    /// which `open_file` needs on its create path.
    pub fn can_open(&self) -> (b: bool)
        ensures
            b == (self@.next_id < u64::MAX),
    {
        self.next_id < u64::MAX
    }

    /// Primary click on a tab: the activity carrying `id` becomes active.
    /// An identity not present in the panel is never adopted; the call is
    /// then a no-op.
    pub fn select_activity(&mut self, id: ActivityId)
        requires
            old(self)@.wf(),
        ensures
            final(self)@ == select_trans(old(self)@, id),
            final(self)@.wf(),
    {
        let n: usize = self.activities.len();
        let mut i: usize = 0;
        while i < n
            invariant
                0 <= i <= n,
                n == self.activities@.len(),
                self@ == old(self)@,
                old(self)@.wf(),
                forall|k: int| 0 <= k < i ==> self.activities@[k].id != id,
            decreases n - i,
        {
            let a = self.activities[i];
            if a.id == id {
                proof {
                    assert(self@.contains_id(id));
                }
                self.active_activity = Some(id);
                proof {
                    assert(self@ =~= select_trans(old(self)@, id));
                }
                return;
            }
            i = i + 1;
        }
        proof {
            assert(!self@.contains_id(id));
            assert(self@ =~= select_trans(old(self)@, id));
        }
    }

    /// Close affordance on a tab: the activity carrying `id` is removed.
    /// If it was active, the first remaining tab becomes active (or the
    /// selection empties with the panel). Closing an identity not present
    /// is a no-op.
    pub fn close_activity(&mut self, id: ActivityId)
        requires
            old(self)@.wf(),
        ensures
            final(self)@ == close_trans(old(self)@, id),
            final(self)@.wf(),
    {
        let n: usize = self.activities.len();
        let mut i: usize = 0;
        while i < n
            invariant
                0 <= i <= n,
                n == self.activities@.len(),
                self@ == old(self)@,
                old(self)@.wf(),
                forall|k: int| 0 <= k < i ==> self.activities@[k].id != id,
            decreases n - i,
        {
            let a = self.activities[i];
            if a.id == id {
                let ghost s0 = self@;
                proof {
                    assert(s0.contains_id(id));
                    let j = s0.index_of(id);
                    assert(0 <= j < s0.activities.len() && s0.activities[j].id == id);
                    if j != i as int {
                        assert(false);
                    }
                }
                self.activities.remove(i);
                let was_active = match self.active_activity {
                    Some(current) => current == id,
                    None => false,
                };
                if was_active {
                    if self.activities.len() > 0 {
                        let first = self.activities[0];
                        self.active_activity = Some(first.id);
                    } else {
                        self.active_activity = None;
                    }
                }
                proof {
                    assert(self@ =~= close_trans(s0, id));
                    lemma_close_preserves_wf(s0, id);
                }
                return;
            }
            i = i + 1;
        }
        proof {
            assert(!self@.contains_id(id));
            assert(self@ =~= close_trans(old(self)@, id));
        }
    }

    /// Number of open activities, one tab each.
    pub fn activity_count(&self) -> (n: usize)
        ensures
            n == self@.activities.len(),
    {
        self.activities.len()
    }

    /// The activity at position `i` of the tab order.
    pub fn activity_at(&self, i: usize) -> (a: Activity)
        requires
            i < self@.activities.len(),
        ensures
            a == self@.activities[i as int],
    {
        self.activities[i]
    }

    /// Identity of the active activity, if any.
    pub fn active_activity(&self) -> (a: Option<ActivityId>)
        ensures
            a == self@.active,
    {
        self.active_activity
    }

    /// True when the tab carrying `id` is the active one; drives the
    /// tab's highlight.
    pub fn is_active(&self, id: ActivityId) -> (b: bool)
        ensures
            b == (self@.active == Some(id)),
    {
        match self.active_activity {
            Some(current) => current == id,
            None => false,
        }
    }

    /// The panel shows the decorative background placeholder exactly
    /// while no activity is open.
    pub fn shows_background(&self) -> (b: bool)
        ensures
            b == (self@.activities.len() == 0),
    {
        self.activities.len() == 0
    }

    /// The context-menu state the panel owns.
    pub fn context_menu(&self) -> (m: ContextMenuState)
        ensures
            m == self@.menu,
    {
        self.context_menu_state
    }

    /// Secondary click on a tab: the context menu opens at the pointer's
    /// screen coordinates. The tab collection and selection are untouched.
    pub fn show_context_menu(&mut self, x: i32, y: i32)
        ensures
            final(self)@ == (PanelView {
                menu: ContextMenuState { show_menu: true, menu_x: x, menu_y: y },
                ..old(self)@
            }),
            old(self)@.wf() ==> final(self)@.wf(),
    {
        self.context_menu_state.open_at(x, y);
    }

    /// The menu widget clears its own visibility once an option was
    /// chosen; panel state is otherwise untouched.
    pub fn dismiss_context_menu(&mut self)
        ensures
            final(self)@ == (PanelView {
                menu: ContextMenuState {
                    show_menu: false,
                    menu_x: old(self)@.menu.menu_x,
                    menu_y: old(self)@.menu.menu_y,
                },
                ..old(self)@
            }),
            old(self)@.wf() ==> final(self)@.wf(),
    {
        self.context_menu_state.dismiss();
    }
}

/// Height, in pixels, left for the active activity's content once the tab
/// bar has taken its fixed reservation; zero when the panel is shorter
/// than the tab bar.
pub open spec fn content_height_spec(height: u32) -> u32 {
    if height >= TAB_HEIGHT {
        (height - TAB_HEIGHT) as u32
    } else {
        0
    }
}

/// Sizes the content area under the tab bar.
pub fn content_height(height: u32) -> (h: u32)
    ensures
        h == content_height_spec(height),
{
    if height >= TAB_HEIGHT {
        height - TAB_HEIGHT
    } else {
        0
    }
}

/// A tab is highlighted while its activity is active or the pointer
/// hovers over it.
pub fn tab_highlighted(is_active: bool, hovered: bool) -> (b: bool)
    ensures
        b == (is_active || hovered),
{
    is_active || hovered
}

/// Selecting a tab keeps every panel invariant.
pub proof fn lemma_select_preserves_wf(s: PanelView, id: ActivityId)
    requires
        s.wf(),
    ensures
        select_trans(s, id).wf(),
{
}

/// Closing a tab keeps every panel invariant.
pub proof fn lemma_close_preserves_wf(s: PanelView, id: ActivityId)
    requires
        s.wf(),
    ensures
        close_trans(s, id).wf(),
{
    if s.contains_id(id) {
        let i = s.index_of(id);
        assert(0 <= i < s.activities.len() && s.activities[i].id == id);
        let r = s.activities.remove(i);
        let s1 = close_trans(s, id);
        assert forall|p: int, q: int| 0 <= p < q < r.len() implies r[p].id != r[q].id by {
            let p0 = if p < i { p } else { p + 1 };
            let q0 = if q < i { q } else { q + 1 };
            assert(r[p] == s.activities[p0]);
            assert(r[q] == s.activities[q0]);
            assert(0 <= p0 < q0 < s.activities.len());
        }
        assert forall|p: int, q: int, g: FileId|
            0 <= p < q < r.len() implies !(r[p].is_editor_for(g) && r[q].is_editor_for(g)) by {
            let p0 = if p < i { p } else { p + 1 };
            let q0 = if q < i { q } else { q + 1 };
            assert(r[p] == s.activities[p0]);
            assert(r[q] == s.activities[q0]);
            assert(0 <= p0 < q0 < s.activities.len());
        }
        assert forall|k: int| 0 <= k < r.len() implies r[k].id.0 < s.next_id by {
            let k0 = if k < i { k } else { k + 1 };
            assert(r[k] == s.activities[k0]);
        }
        if s.active == Some(id) {
            if r.len() > 0 {
                assert(r[0].id == s1.active.unwrap());
                assert(s1.contains_id(r[0].id));
            }
        } else if s.active is Some {
            let a2 = s.active.unwrap();
            let j = choose|j: int| 0 <= j < s.activities.len() && s.activities[j].id == a2;
            assert(s.activities[j].id == a2);
            assert(j != i);
            let j1 = if j < i { j } else { j - 1 };
            assert(r[j1] == s.activities[j]);
            assert(s1.contains_id(a2));
        }
    }
}

/// Opening a file keeps every panel invariant.
pub proof fn lemma_open_file_preserves_wf(s: PanelView, f: FileId)
    requires
        s.wf(),
        s.next_id < u64::MAX,
    ensures
        open_file_trans(s, f).wf(),
{
    let s1 = open_file_trans(s, f);
    if s.has_editor(f) {
        let j = s.editor_index(f);
        assert(0 <= j < s.activities.len() && s.activities[j].is_editor_for(f));
        assert(s1.contains_id(s.activities[j].id));
    } else {
        let fresh = Activity { id: ActivityId(s.next_id), kind: ActivityKind::Editor(f) };
        let m = s.activities.len() as int;
        assert(s1.activities[m] == fresh);
        assert(forall|k: int| 0 <= k < m ==> s1.activities[k] == s.activities[k]);
        assert forall|i: int, j: int|
            0 <= i < j < s1.activities.len() implies s1.activities[i].id != s1.activities[j].id by {
            if j == m {
                assert(s.activities[i].id.0 < s.next_id);
            }
        }
        assert forall|i: int, j: int, g: FileId|
            0 <= i < j < s1.activities.len() implies !(s1.activities[i].is_editor_for(g)
            && s1.activities[j].is_editor_for(g)) by {
            if j == m && s1.activities[i].is_editor_for(g) && s1.activities[j].is_editor_for(g) {
                assert(s.activities[i].is_editor_for(f));
                assert(s.has_editor(f));
            }
        }
        assert(s1.contains_id(fresh.id));
    }
}

} // verus!
