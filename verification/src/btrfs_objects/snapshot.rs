//! Group snapshots whose subvolume snapshots share the subvolume they were
//! taken of.
use std::rc::Rc;
use vstd::prelude::*;
use crate::btrfs_objects::subvolume::Subvolume;
use crate::btrfs_objects::subvolume_snapshot::SubvolumeSnapshotView;
use crate::utils::{DateTimeFields, date_text, time_text, get_current_date_time};

pub use crate::btrfs_objects::group_snapshot::SnapshotType;

verus! {

/// The view of an optional shared subvolume: its path.
pub open spec fn related_view(o: Option<Rc<Subvolume>>) -> Option<Seq<char>> {
    match o {
        Some(s) => Some(s@),
        None => None,
    }
}

/// Snapshot of a single subvolume, sharing the subvolume it was taken of.
#[derive(Debug)]
pub struct SubvolumeSnapshot {
    _path: String,
    _related_subvolume: Option<Rc<Subvolume>>,
}

impl View for SubvolumeSnapshot {
    type V = SubvolumeSnapshotView;

    closed spec fn view(&self) -> SubvolumeSnapshotView {
        SubvolumeSnapshotView { path: self._path@, related_subvolume: related_view(self._related_subvolume) }
    }
}

impl SubvolumeSnapshot {
    /// A snapshot at `path`, taken of `related_subvolume` where known.
    pub fn new(path: String, related_subvolume: Option<Rc<Subvolume>>) -> (r: Self)
        ensures
            r@ == (SubvolumeSnapshotView {
                path: path@,
                related_subvolume: related_view(related_subvolume),
            }),
    {
        SubvolumeSnapshot { _path: path, _related_subvolume: related_subvolume }
    }
}

/// The views of a sequence of subvolume snapshots.
pub open spec fn snapshot_views(s: Seq<SubvolumeSnapshot>) -> Seq<SubvolumeSnapshotView> {
    s.map_values(|x: SubvolumeSnapshot| x@)
}

/// What a group snapshot records.
pub struct GroupSnapshotRecord {
    pub subvolume_snapshots: Seq<SubvolumeSnapshotView>,
    pub date: Seq<char>,
    pub time: Seq<char>,
    pub snapshot_type: SnapshotType,
}

/// The snapshots of a group, taken together at one date and time.
#[derive(Debug)]
pub struct GroupSnapshot {
    subvolume_snapshots: Vec<SubvolumeSnapshot>,
    date: String,
    time: String,
    snapshot_type: SnapshotType,
}

impl View for GroupSnapshot {
    type V = GroupSnapshotRecord;

    closed spec fn view(&self) -> GroupSnapshotRecord {
        GroupSnapshotRecord {
            subvolume_snapshots: snapshot_views(self.subvolume_snapshots@),
            date: self.date@,
            time: self.time@,
            snapshot_type: self.snapshot_type,
        }
    }
}

impl GroupSnapshot {
    /// An empty group snapshot taken at `date` and `time` for `snapshot_type`.
    pub fn new(date: String, time: String, snapshot_type: SnapshotType) -> (r: Self)
        ensures
            r@ == (GroupSnapshotRecord {
                subvolume_snapshots: Seq::empty(),
                date: date@,
                time: time@,
                snapshot_type,
            }),
    {
        let r = GroupSnapshot { date, time, snapshot_type, subvolume_snapshots: Vec::new() };
        assert(snapshot_views(r.subvolume_snapshots@) =~= Seq::empty());
        r
    }

    /// An empty group snapshot for `snapshot_type`, taken now: in the local
    /// offset where it can be determined, in UTC otherwise.
    pub fn new_current_time(snapshot_type: SnapshotType) -> (r: Self)
        ensures
            exists|f: DateTimeFields|
                f.wf() && r@ == (GroupSnapshotRecord {
                    subvolume_snapshots: Seq::empty(),
                    date: date_text(f),
                    time: time_text(f),
                    snapshot_type,
                }),
    {
        let (date, time) = get_current_date_time();
        GroupSnapshot::new(date, time, snapshot_type)
    }

    /// Records the snapshot at `full_path` of the shared subvolume
    /// `related_subvolume`.
    pub fn add_snapshot(&mut self, full_path: &str, related_subvolume: Rc<Subvolume>)
        ensures
            final(self)@ == (GroupSnapshotRecord {
                subvolume_snapshots: old(self)@.subvolume_snapshots.push(
                    SubvolumeSnapshotView { path: full_path@, related_subvolume: Some(related_subvolume@) },
                ),
                ..old(self)@
            }),
    {
        let ghost before = snapshot_views(self.subvolume_snapshots@);
        let s = SubvolumeSnapshot::new(String::from_str(full_path), Some(related_subvolume));
        self.subvolume_snapshots.push(s);
        assert(snapshot_views(self.subvolume_snapshots@) =~= before.push(s@));
    }

    /// Whether this is the group snapshot taken at the date and time of
    /// `other` for its type.
    pub fn eq(&self, other: &(&str, &str, &SnapshotType)) -> (r: bool)
        ensures
            r == (self@.date == other.0@ && self@.time == other.1@ && self@.snapshot_type == *other.2),
    {
        crate::text::str_eq(self.date.as_str(), other.0) && crate::text::str_eq(self.time.as_str(), other.1)
            && self.snapshot_type == *other.2
    }
}

} // verus!
