//! The objects found on a btrfs partition: subvolumes, their snapshots,
//! and the snapshot groups that bundle them.
pub mod snapshot_type;
pub mod subvolume_snapshot;
pub mod group_snapshot;
pub mod group;
pub mod subvolume;
pub mod snapshot;
pub mod snapshot_group;
