//! Fixed locations and names the application works with.
//!
//! Snapshot folder structure on the btrfs partition:
//!
//! ```text
//! the btrfs partion
//! └── tram_btrfs
//!     ├── broken
//!     │   └── broken snapshots
//!     └── snapshot_groups
//!         └── default
//!             ├── daily
//!             ├── manually
//!             │   └── 2026-04-16_21:26:00
//!             │       └── path/to/related/subvolume
//!             ├── monthly
//!             └── weekly
//! ```
//!
//! The application should take a snapshot before recovering a subvolume and
//! place it under `tram_btrfs/broken/`; it denies a request to recover a
//! system subvolume.
use vstd::prelude::*;

verus! {

/// Where the btrfs partition is mounted while the application runs.
pub const MOUNT_POINT: &'static str = "/run/tram_btrfs/";

/// The lock file that keeps a second instance from running.
pub const FILE_LOCK: &'static str = "/run/tram_btrfs.lock";

/// Top directory of the application on the partition and in the
/// configuration directory.
pub const TOP_DIRECTORY_NAME: &'static str = "tram_btrfs/";

/// Directory, under the top directory, that holds the snapshot groups.
pub const GROUPS_DIRECTORY_NAME: &'static str = "snapshot_groups";

/// Directory, under the top directory, that holds broken snapshots.
pub const BROKEN_DIRECTORY_NAME: &'static str = "broken";

} // verus!
