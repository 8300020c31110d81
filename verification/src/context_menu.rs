use vstd::prelude::*;

verus! {

/// State of the context-menu widget that a tab's secondary click opens:
/// a visibility flag and the screen position the menu is anchored at.
/// The widget's own option handling clears the flag again.
#[derive(Clone, Copy, PartialEq, Eq, Structural, Debug)]
pub struct ContextMenuState {
    pub show_menu: bool,
    pub menu_x: i32,
    pub menu_y: i32,
}

impl ContextMenuState {
    /// A freshly constructed menu is hidden and anchored at the origin.
    pub fn new() -> (m: Self)
        ensures
            m == (ContextMenuState { show_menu: false, menu_x: 0, menu_y: 0 }),
    {
        ContextMenuState { show_menu: false, menu_x: 0, menu_y: 0 }
    }

    /// Show the menu at the given screen coordinates.
    pub fn open_at(&mut self, x: i32, y: i32)
        ensures
            *final(self) == (ContextMenuState { show_menu: true, menu_x: x, menu_y: y }),
    {
        self.show_menu = true;
        self.menu_x = x;
        self.menu_y = y;
    }

    /// Hide the menu; its anchor position is kept.
    pub fn dismiss(&mut self)
        ensures
            *final(self) == (ContextMenuState {
                show_menu: false,
                menu_x: old(self).menu_x,
                menu_y: old(self).menu_y,
            }),
    {
        self.show_menu = false;
    }
}

} // verus!
