use activity_panel::activity::{Activity, ActivityId, ActivityKind, FileId};
use activity_panel::panel::{content_height, tab_highlighted, ActivityPanel, WorkspaceCommand, TAB_HEIGHT};

fn ids(panel: &ActivityPanel) -> Vec<ActivityId> {
    let mut out: Vec<ActivityId> = Vec::new();
    let mut i: usize = 0;
    while i < panel.activity_count() {
        out.push(panel.activity_at(i).id);
        i += 1;
    }
    out
}

#[test]
fn fresh_panel_seeds_welcome() {
    let panel = ActivityPanel::default();
    assert_eq!(panel.activity_count(), 1);
    let welcome = panel.activity_at(0);
    assert!(matches!(welcome.kind, ActivityKind::Welcome));
    assert_eq!(panel.active_activity(), Some(welcome.id));
    assert!(!panel.shows_background());
}

#[test]
fn open_file_appends_editor_and_activates_it() {
    let mut panel = ActivityPanel::default();
    assert!(panel.can_open());
    panel.open_file(FileId(10));
    assert_eq!(panel.activity_count(), 2);
    let editor = panel.activity_at(1);
    assert!(matches!(editor.kind, ActivityKind::Editor(f) if f == FileId(10)));
    assert_eq!(panel.active_activity(), Some(editor.id));
}

#[test]
fn open_file_twice_keeps_one_editor() {
    let mut panel = ActivityPanel::default();
    panel.open_file(FileId(10));
    let editor_id = panel.activity_at(1).id;
    panel.open_file(FileId(10));
    assert_eq!(panel.activity_count(), 2);
    assert_eq!(panel.activity_at(1).id, editor_id);
    assert_eq!(panel.active_activity(), Some(editor_id));
    let editors: Vec<Activity> = (0..panel.activity_count())
        .map(|i| panel.activity_at(i))
        .filter(|a| matches!(a.kind, ActivityKind::Editor(f) if f == FileId(10)))
        .collect();
    assert_eq!(editors.len(), 1);
}

#[test]
fn open_files_appear_in_open_order() {
    let mut panel = ActivityPanel::default();
    panel.open_file(FileId(1));
    panel.open_file(FileId(2));
    panel.open_file(FileId(3));
    assert_eq!(panel.activity_count(), 4);
    assert!(matches!(panel.activity_at(0).kind, ActivityKind::Welcome));
    assert!(matches!(panel.activity_at(1).kind, ActivityKind::Editor(f) if f == FileId(1)));
    assert!(matches!(panel.activity_at(2).kind, ActivityKind::Editor(f) if f == FileId(2)));
    assert!(matches!(panel.activity_at(3).kind, ActivityKind::Editor(f) if f == FileId(3)));
    assert_eq!(panel.active_activity(), Some(panel.activity_at(3).id));
}

#[test]
fn reopening_does_not_reorder_tabs() {
    let mut panel = ActivityPanel::default();
    panel.open_file(FileId(1));
    panel.open_file(FileId(2));
    let order_before = ids(&panel);
    panel.open_file(FileId(1));
    assert_eq!(ids(&panel), order_before);
    assert_eq!(panel.active_activity(), Some(panel.activity_at(1).id));
}

#[test]
fn closing_active_tab_reselects_first_remaining() {
    let mut panel = ActivityPanel::default();
    panel.open_file(FileId(1));
    panel.open_file(FileId(2));
    let b = panel.activity_at(1).id;
    panel.select_activity(b);
    assert_eq!(panel.active_activity(), Some(b));
    panel.close_activity(b);
    assert_eq!(panel.activity_count(), 2);
    assert!(matches!(panel.activity_at(0).kind, ActivityKind::Welcome));
    assert!(matches!(panel.activity_at(1).kind, ActivityKind::Editor(f) if f == FileId(2)));
    assert_eq!(panel.active_activity(), Some(panel.activity_at(0).id));
}

#[test]
fn closing_inactive_tab_keeps_selection() {
    let mut panel = ActivityPanel::default();
    panel.open_file(FileId(1));
    panel.open_file(FileId(2));
    let a = panel.activity_at(0).id;
    let b = panel.activity_at(1).id;
    panel.select_activity(a);
    panel.close_activity(b);
    assert_eq!(panel.activity_count(), 2);
    assert_eq!(panel.active_activity(), Some(a));
}

#[test]
fn closing_last_tab_empties_panel_and_selection() {
    let mut panel = ActivityPanel::default();
    let welcome_id = panel.activity_at(0).id;
    panel.close_activity(welcome_id);
    assert_eq!(panel.activity_count(), 0);
    assert_eq!(panel.active_activity(), None);
    assert!(panel.shows_background());
}

#[test]
fn closing_absent_id_is_a_noop() {
    let mut panel = ActivityPanel::default();
    panel.open_file(FileId(1));
    let order_before = ids(&panel);
    let active_before = panel.active_activity();
    panel.close_activity(ActivityId(999));
    assert_eq!(ids(&panel), order_before);
    assert_eq!(panel.active_activity(), active_before);
    panel.close_activity(ActivityId(999));
    assert_eq!(ids(&panel), order_before);
    assert_eq!(panel.active_activity(), active_before);
}

#[test]
fn selecting_absent_id_is_a_noop() {
    let mut panel = ActivityPanel::default();
    panel.open_file(FileId(1));
    let active_before = panel.active_activity();
    panel.select_activity(ActivityId(999));
    assert_eq!(panel.active_activity(), active_before);
}

#[test]
fn select_changes_active_to_member() {
    let mut panel = ActivityPanel::default();
    panel.open_file(FileId(1));
    let welcome_id = panel.activity_at(0).id;
    panel.select_activity(welcome_id);
    assert_eq!(panel.active_activity(), Some(welcome_id));
}

#[test]
fn open_after_emptying_panel_works() {
    let mut panel = ActivityPanel::default();
    let welcome_id = panel.activity_at(0).id;
    panel.close_activity(welcome_id);
    panel.open_file(FileId(7));
    assert_eq!(panel.activity_count(), 1);
    assert!(matches!(panel.activity_at(0).kind, ActivityKind::Editor(f) if f == FileId(7)));
    assert_eq!(panel.active_activity(), Some(panel.activity_at(0).id));
    assert!(!panel.shows_background());
}

#[test]
fn command_stream_scenario() {
    let mut panel = ActivityPanel::default();
    let welcome_id = panel.activity_at(0).id;
    let file_a = FileId(100);
    let file_b = FileId(200);

    panel.apply_command(WorkspaceCommand::OpenFile(file_a));
    assert_eq!(panel.activity_count(), 2);
    let editor_a = panel.activity_at(1).id;
    assert_eq!(panel.active_activity(), Some(editor_a));

    panel.apply_command(WorkspaceCommand::OpenFile(file_a));
    assert_eq!(panel.activity_count(), 2);
    assert_eq!(panel.active_activity(), Some(editor_a));

    panel.apply_command(WorkspaceCommand::OpenFile(file_b));
    assert_eq!(panel.activity_count(), 3);
    let editor_b = panel.activity_at(2).id;
    assert_eq!(panel.active_activity(), Some(editor_b));

    panel.close_activity(editor_b);
    assert_eq!(panel.activity_count(), 2);
    assert!(matches!(panel.activity_at(0).kind, ActivityKind::Welcome));
    assert!(matches!(panel.activity_at(1).kind, ActivityKind::Editor(f) if f == file_a));
    assert_eq!(panel.active_activity(), Some(welcome_id));
}

fn active_is_member_or_absent(panel: &ActivityPanel) -> bool {
    match panel.active_activity() {
        None => true,
        Some(active) => ids(panel).contains(&active),
    }
}

#[test]
fn selection_always_points_into_the_panel() {
    let mut panel = ActivityPanel::default();
    assert!(active_is_member_or_absent(&panel));
    panel.open_file(FileId(1));
    assert!(active_is_member_or_absent(&panel));
    panel.open_file(FileId(2));
    assert!(active_is_member_or_absent(&panel));
    let b = panel.activity_at(2).id;
    panel.select_activity(b);
    assert!(active_is_member_or_absent(&panel));
    panel.close_activity(b);
    assert!(active_is_member_or_absent(&panel));
    panel.close_activity(panel.activity_at(0).id);
    assert!(active_is_member_or_absent(&panel));
    panel.close_activity(panel.activity_at(0).id);
    assert!(active_is_member_or_absent(&panel));
    assert_eq!(panel.activity_count(), 0);
    assert_eq!(panel.active_activity(), None);
}

#[test]
fn minted_ids_are_distinct() {
    let mut panel = ActivityPanel::default();
    panel.open_file(FileId(1));
    panel.open_file(FileId(2));
    panel.open_file(FileId(3));
    let all = ids(&panel);
    for i in 0..all.len() {
        for j in 0..all.len() {
            if i != j {
                assert_ne!(all[i], all[j]);
            }
        }
    }
}

#[test]
fn only_editor_tabs_are_closable() {
    let mut panel = ActivityPanel::default();
    panel.open_file(FileId(1));
    assert!(!panel.activity_at(0).closable());
    assert!(panel.activity_at(1).closable());
}

#[test]
fn content_height_reserves_tab_bar() {
    assert_eq!(TAB_HEIGHT, 48);
    assert_eq!(content_height(100), 52);
    assert_eq!(content_height(48), 0);
    assert_eq!(content_height(47), 0);
    assert_eq!(content_height(0), 0);
}

#[test]
fn tab_highlight_follows_active_or_hover() {
    assert!(!tab_highlighted(false, false));
    assert!(tab_highlighted(true, false));
    assert!(tab_highlighted(false, true));
    assert!(tab_highlighted(true, true));
}

#[test]
fn is_active_tracks_selection() {
    let mut panel = ActivityPanel::default();
    let welcome_id = panel.activity_at(0).id;
    assert!(panel.is_active(welcome_id));
    panel.open_file(FileId(1));
    let editor_id = panel.activity_at(1).id;
    assert!(panel.is_active(editor_id));
    assert!(!panel.is_active(welcome_id));
}
