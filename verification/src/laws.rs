//! The guarantees of the panel's lifecycle state machine, stated and
//! proved over the transition functions that the executable methods
//! refine. Together with the preservation lemmas beside the transition
//! functions, the first two lemmas show that every reachable panel state
//! keeps the selection pointing into the tab sequence.

use vstd::prelude::*;
use crate::activity::{Activity, ActivityId, ActivityKind, FileId};
use crate::panel::{
    PanelView, init_view, open_file_trans, close_trans, lemma_open_file_preserves_wf,
};

verus! {

/// A freshly constructed panel satisfies every panel invariant. Every
/// transition preserves them, so every reachable state is well-formed.
pub proof fn lemma_init_wf()
    ensures
        init_view().wf(),
{
    let s = init_view();
    assert(s.activities[0].id == ActivityId(0));
    assert(s.contains_id(ActivityId(0)));
}

/// In a well-formed state a non-empty selection always points at a
/// member of the tab sequence.
pub proof fn lemma_active_is_member(s: PanelView)
    requires
        s.wf(),
        s.active is Some,
    ensures
        exists|i: int|
            0 <= i < s.activities.len() && s.activities[i].id == s.active.unwrap(),
{
}

/// Opening the same file twice in a row leaves exactly one editor for it
/// in the panel, active after both calls: the second open changes
/// nothing at all.
pub proof fn lemma_open_file_dedup(s: PanelView, f: FileId)
    requires
        s.wf(),
        s.next_id < u64::MAX,
    ensures
        open_file_trans(open_file_trans(s, f), f) == open_file_trans(s, f),
        open_file_trans(s, f).has_editor(f),
        forall|i: int, j: int|
            0 <= i < j < open_file_trans(s, f).activities.len() ==> !(open_file_trans(
                s,
                f,
            ).activities[i].is_editor_for(f) && open_file_trans(s, f).activities[j].is_editor_for(
                f,
            )),
        open_file_trans(s, f).active == Some(
            open_file_trans(s, f).activities[open_file_trans(s, f).editor_index(f)].id,
        ),
{
    let s1 = open_file_trans(s, f);
    lemma_open_file_preserves_wf(s, f);
    if s.has_editor(f) {
        let j = s.editor_index(f);
        assert(0 <= j < s.activities.len() && s.activities[j].is_editor_for(f));
        assert(s1.has_editor(f));
        let j1 = s1.editor_index(f);
        assert(0 <= j1 < s1.activities.len() && s1.activities[j1].is_editor_for(f));
        if j1 != j {
            assert(false);
        }
        assert(open_file_trans(s1, f) =~= s1);
    } else {
        let m = s.activities.len() as int;
        assert(s1.activities[m].is_editor_for(f));
        assert(s1.has_editor(f));
        let j1 = s1.editor_index(f);
        assert(0 <= j1 < s1.activities.len() && s1.activities[j1].is_editor_for(f));
        if j1 != m {
            assert(false);
        }
        assert(open_file_trans(s1, f) =~= s1);
    }
}

/// The panel state reached by opening each file of `files`, first to
/// last, from `s`.
pub open spec fn open_seq(s: PanelView, files: Seq<FileId>) -> PanelView
    decreases files.len(),
{
    if files.len() == 0 {
        s
    } else {
        open_seq(open_file_trans(s, files[0]), files.drop_first())
    }
}

/// The editor activities minted for `files`, handles given out in order
/// starting at `next_id`.
pub open spec fn minted_editors(next_id: u64, files: Seq<FileId>) -> Seq<Activity> {
    Seq::new(
        files.len(),
        |k: int| Activity { id: ActivityId((next_id + k) as u64), kind: ActivityKind::Editor(files[k]) },
    )
}

/// Opening distinct files, none of them already open, appends one editor
/// per file at the end of the tab order, in open order. Every activity
/// already present (the welcome view among them) keeps its place before
/// all of them, and the editor opened last is the active one.
pub proof fn lemma_open_files_append(s: PanelView, files: Seq<FileId>)
    requires
        s.wf(),
        s.next_id + files.len() <= u64::MAX,
        forall|k: int, l: int| 0 <= k < l < files.len() ==> files[k] != files[l],
        forall|k: int| 0 <= k < files.len() ==> !s.has_editor(files[k]),
    ensures
        open_seq(s, files).wf(),
        open_seq(s, files).activities == s.activities + minted_editors(s.next_id, files),
        open_seq(s, files).next_id == s.next_id + files.len(),
        files.len() > 0 ==> open_seq(s, files).active == Some(
            ActivityId((s.next_id + files.len() - 1) as u64),
        ),
        files.len() == 0 ==> open_seq(s, files) == s,
    decreases files.len(),
{
    if files.len() == 0 {
        assert(s.activities + minted_editors(s.next_id, files) =~= s.activities);
    } else {
        let f0 = files[0];
        assert(!s.has_editor(f0));
        let s1 = open_file_trans(s, f0);
        lemma_open_file_preserves_wf(s, f0);
        let fresh = Activity { id: ActivityId(s.next_id), kind: ActivityKind::Editor(f0) };
        assert(s1.activities == s.activities.push(fresh));
        let rest = files.drop_first();
        assert forall|k: int, l: int| 0 <= k < l < rest.len() implies rest[k] != rest[l] by {
            assert(files[k + 1] != files[l + 1]);
        }
        assert forall|k: int| 0 <= k < rest.len() implies !s1.has_editor(rest[k]) by {
            assert(rest[k] == files[k + 1]);
            assert(files[0] != files[k + 1]);
            assert(!s.has_editor(files[k + 1]));
            if s1.has_editor(rest[k]) {
                let j = choose|j: int|
                    0 <= j < s1.activities.len() && s1.activities[j].is_editor_for(rest[k]);
                assert(s1.activities[j].is_editor_for(rest[k]));
                if j < s.activities.len() {
                    assert(s.activities[j].is_editor_for(files[k + 1]));
                    assert(s.has_editor(files[k + 1]));
                } else {
                    assert(s1.activities[j] == fresh);
                }
            }
        }
        lemma_open_files_append(s1, rest);
        assert(open_seq(s, files) == open_seq(s1, rest));
        assert forall|k: int|
            0 <= k < s.activities.len() + files.len() implies (s1.activities + minted_editors(
            s1.next_id,
            rest,
        ))[k] == (s.activities + minted_editors(s.next_id, files))[k] by {
            let m = s.activities.len() as int;
            if k < m {
            } else if k == m {
                assert((s.activities + minted_editors(s.next_id, files))[k] == minted_editors(
                    s.next_id,
                    files,
                )[0]);
            } else {
                assert((s1.activities + minted_editors(s1.next_id, rest))[k] == minted_editors(
                    s1.next_id,
                    rest,
                )[k - m - 1]);
                assert((s.activities + minted_editors(s.next_id, files))[k] == minted_editors(
                    s.next_id,
                    files,
                )[k - m]);
                assert(rest[k - m - 1] == files[k - m]);
            }
        }
        assert(s1.activities + minted_editors(s1.next_id, rest) =~= s.activities + minted_editors(
            s.next_id,
            files,
        ));
    }
}

/// Closing the active tab, with others remaining, re-points the
/// selection at the first remaining tab; only the closed tab disappears
/// and the order of the rest is kept.
pub proof fn lemma_close_active_reselects_first(s: PanelView, id: ActivityId)
    requires
        s.wf(),
        s.contains_id(id),
        s.active == Some(id),
        s.activities.len() > 1,
    ensures
        close_trans(s, id).activities == s.activities.remove(s.index_of(id)),
        close_trans(s, id).active == Some(s.activities.remove(s.index_of(id))[0].id),
{
    let i = s.index_of(id);
    assert(0 <= i < s.activities.len() && s.activities[i].id == id);
}

/// Closing a tab that is not the active one leaves the selection alone.
pub proof fn lemma_close_inactive_keeps_selection(s: PanelView, id: ActivityId)
    requires
        s.wf(),
        s.active != Some(id),
    ensures
        close_trans(s, id).active == s.active,
{
}

/// Closing the last remaining tab empties the panel, and the selection
/// with it.
pub proof fn lemma_close_last_empties(s: PanelView, id: ActivityId)
    requires
        s.wf(),
        s.activities.len() == 1,
        s.activities[0].id == id,
        s.active == Some(id),
    ensures
        close_trans(s, id).activities.len() == 0,
        close_trans(s, id).active is None,
{
    assert(s.contains_id(id));
    let i = s.index_of(id);
    assert(0 <= i < s.activities.len() && s.activities[i].id == id);
}

/// Closing an identity carried by no member is a no-op: collection and
/// selection are both unchanged.
pub proof fn lemma_close_absent_noop(s: PanelView, id: ActivityId)
    requires
        !s.contains_id(id),
    ensures
        close_trans(s, id) == s,
{
}

} // verus!
