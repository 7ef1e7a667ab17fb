//! Verified core of the MyCad 2D CAD editor: command and menu state,
//! rebindable input, numeric entry, undo history, selection, the block tree,
//! the in-place block edit session, what viewport gestures and shortcut keys
//! do, and the headless raster preview.

pub mod commands;
pub mod history;
pub mod selection;
pub mod text;
pub mod input;
pub mod context_menu;
pub mod dynamic_input;
pub mod command_state;
pub mod block_edit;
pub mod blocks;
pub mod preview;
pub mod properties;
pub mod file_names;
pub mod settings_ui;
pub mod drafting;
pub mod dialogs;
pub mod dynamic_block;
pub mod perf;
pub mod ribbon;
pub mod session;
pub mod viewport;
