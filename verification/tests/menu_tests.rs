use activity_panel::context_menu::ContextMenuState;
use activity_panel::panel::ActivityPanel;
use activity_panel::activity::FileId;

#[test]
fn menu_starts_hidden() {
    let menu = ContextMenuState::new();
    assert!(!menu.show_menu);
    assert_eq!(menu.menu_x, 0);
    assert_eq!(menu.menu_y, 0);
}

#[test]
fn open_at_shows_menu_at_pointer() {
    let mut menu = ContextMenuState::new();
    menu.open_at(120, -45);
    assert!(menu.show_menu);
    assert_eq!(menu.menu_x, 120);
    assert_eq!(menu.menu_y, -45);
}

#[test]
fn dismiss_hides_menu_and_keeps_anchor() {
    let mut menu = ContextMenuState::new();
    menu.open_at(7, 9);
    menu.dismiss();
    assert!(!menu.show_menu);
    assert_eq!(menu.menu_x, 7);
    assert_eq!(menu.menu_y, 9);
}

#[test]
fn panel_owns_menu_across_tab_operations() {
    let mut panel = ActivityPanel::default();
    assert!(!panel.context_menu().show_menu);
    panel.show_context_menu(30, 40);
    let menu = panel.context_menu();
    assert!(menu.show_menu);
    assert_eq!(menu.menu_x, 30);
    assert_eq!(menu.menu_y, 40);
    panel.open_file(FileId(5));
    assert!(panel.context_menu().show_menu);
    panel.dismiss_context_menu();
    let menu = panel.context_menu();
    assert!(!menu.show_menu);
    assert_eq!(menu.menu_x, 30);
    assert_eq!(menu.menu_y, 40);
}
