//! The decisions of the terminal interface: menu entries, key bindings,
//! table selections and the layout of the snapshot tables.
pub mod ui_states;
pub mod app_tui;
pub mod snapshots_ui;
