//! Verified core of a btrfs snapshot manager: snapshot groups, snapshot
//! path parsing, configuration state and the decisions of its terminal UI.
pub mod text;
pub mod paths;
pub mod globals;
pub mod btrfs_objects;
pub mod error;
pub mod utils;
pub mod subvolume;
pub mod app_config;
pub mod btrfs_manager;
pub mod tui;
pub mod args;
