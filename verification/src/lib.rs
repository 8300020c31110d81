//! A tabbed activity panel: an ordered collection of open activities
//! (file editors and a static welcome view), an active-selection pointer
//! into that collection, and the rules that keep the pair consistent
//! under open-file, select and close operations.

pub mod activity;
pub mod context_menu;
pub mod laws;
pub mod panel;
