//! The snapshot of a single subvolume, and where it moves when its group
//! is renamed.
use vstd::prelude::*;
use crate::error::AppError;
use crate::globals::MOUNT_POINT;
use crate::paths::{path_join, path_join_spec};
use crate::text::opt_view;

verus! {

/// What a subvolume snapshot records.
pub struct SubvolumeSnapshotView {
    /// Path of the snapshot below the mount point.
    pub path: Seq<char>,
    /// Path of the subvolume it was taken of, where known.
    pub related_subvolume: Option<Seq<char>>,
}

/// Snapshot of a single subvolume.
#[derive(Debug)]
pub struct SubvolumeSnapshot {
    path: String,
    related_subvolume: Option<String>,
}

/// A snapshot to be moved from one full path to another: create the
/// directory `to` with its parents, then rename `from` onto it.
#[derive(Debug)]
pub struct SnapshotMove {
    pub from: String,
    pub to: String,
}

/// The `Debug` text of a path, as `format!("{:?}", Path::new(p))` writes it.
pub uninterp spec fn path_debug_text(p: Seq<char>) -> Seq<char>;

/// `format!("{:?}", std::path::Path::new(p))`: the quoted, escaped text of
/// the path `p`. The contract claims only that the text is the same for the
/// same path; what the escaping does is left unsaid.
#[verifier::external_body]
fn debug_path(p: &str) -> (r: String)
    ensures
        r@ == path_debug_text(p@),
{
    format!("{:?}", std::path::Path::new(p))
}

/// The internal error reported when a snapshot without a related subvolume
/// is to be moved to `to`.
pub open spec fn no_related_subvolume_message(to: Seq<char>) -> Seq<char> {
    "No related subvolume when moving snapshot:\n\tfrom: None\n\tto: "@ + path_debug_text(to)
}

/// `r` is what moving the snapshot `ss` into the group snapshot directory
/// `dir` (below the mount point) gives.
pub open spec fn move_outcome(ss: SubvolumeSnapshotView, dir: Seq<char>, r: Result<SnapshotMove, AppError>) -> bool {
    match ss.related_subvolume {
        Some(rel) => r matches Ok(m) && m.from@ == path_join_spec(MOUNT_POINT@, ss.path) && m.to@
            == path_join_spec(path_join_spec(MOUNT_POINT@, dir), rel),
        None => r matches Err(AppError::Bug(msg)) && msg@ == no_related_subvolume_message(dir),
    }
}

impl View for SubvolumeSnapshot {
    type V = SubvolumeSnapshotView;

    closed spec fn view(&self) -> SubvolumeSnapshotView {
        SubvolumeSnapshotView { path: self.path@, related_subvolume: opt_view(self.related_subvolume) }
    }
}

impl SubvolumeSnapshot {
    /// A snapshot at `path`, taken of `related_subvolume` where known.
    pub fn new(path: String, related_subvolume: Option<String>) -> (r: Self)
        ensures
            r@ == (SubvolumeSnapshotView { path: path@, related_subvolume: opt_view(related_subvolume) }),
    {
        SubvolumeSnapshot { path, related_subvolume }
    }

    /// Path of the snapshot below the mount point.
    pub fn get_path(&self) -> (r: &str)
        ensures
            r@ == self@.path,
    {
        self.path.as_str()
    }

    /// Path of the subvolume the snapshot was taken of, where known.
    pub fn get_related_subvolume(&self) -> (r: Option<String>)
        ensures
            opt_view(r) == self@.related_subvolume,
    {
        match &self.related_subvolume {
            Some(s) => Some(s.clone()),
            None => None,
        }
    }

    /// The full path of the snapshot: its path joined to the mount point.
    pub fn get_fullpath(&self) -> (r: String)
        ensures
            r@ == path_join_spec(MOUNT_POINT@, self@.path),
    {
        path_join(MOUNT_POINT, self.path.as_str())
    }

    /// Where the snapshot goes when its group snapshot moves to
    /// `new_group_snapshot_path` (a path below the mount point): from its
    /// full path to the related subvolume's path under the new group
    /// snapshot path. A snapshot without a related subvolume cannot move.
    pub fn move_snapshot(&self, new_group_snapshot_path: &str) -> (r: Result<SnapshotMove, AppError>)
        ensures
            move_outcome(self@, new_group_snapshot_path@, r),
    {
        let oldpath = path_join(MOUNT_POINT, self.path.as_str());
        match &self.related_subvolume {
            None => {
                let mut msg = String::from_str(
                    "No related subvolume when moving snapshot:\n\tfrom: None\n\tto: ",
                );
                let shown = debug_path(new_group_snapshot_path);
                msg.append(shown.as_str());
                Err(AppError::Bug(msg))
            },
            Some(subvol_path) => {
                let group_dir = path_join(MOUNT_POINT, new_group_snapshot_path);
                let newpath = path_join(group_dir.as_str(), subvol_path.as_str());
                Ok(SnapshotMove { from: oldpath, to: newpath })
            },
        }
    }
}

} // verus!
