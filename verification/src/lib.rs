//! Text fields and start-up decisions of the diri desktop client.

pub mod composer;
pub mod composer_laws;
pub mod controls;
pub mod editor_laws;
pub mod keymap;
pub mod keymap_laws;
pub mod menus;
pub mod query_editor;
pub mod segments;
pub mod startup;
pub mod usage_refresh;
pub mod utf8;
pub mod window;
pub mod wrap;
