//! The snapshots of a group taken together at one date and time.
use vstd::prelude::*;
use crate::btrfs_objects::subvolume_snapshot::{
    SubvolumeSnapshot, SubvolumeSnapshotView, SnapshotMove, move_outcome,
};
use crate::error::AppError;
use crate::paths::{path_join, path_join_spec};
use crate::text::str_eq;
use crate::utils::{DateTimeFields, date_text, time_text, get_current_date_time};

verus! {

/// Why the snapshots of a group were taken.
#[derive(Debug, PartialEq, Eq, Structural, Clone, Copy)]
pub enum SnapshotType {
    Manually,
    Daily,
    Monthly,
    Weekly,
}

impl SnapshotType {
    /// The type a name stands for: each type's name, capitalised or not.
    pub open spec fn from_name_spec(s: Seq<char>) -> Option<SnapshotType> {
        if s == "Manually"@ || s == "manually"@ {
            Some(SnapshotType::Manually)
        } else if s == "Daily"@ || s == "daily"@ {
            Some(SnapshotType::Daily)
        } else if s == "Monthly"@ || s == "monthly"@ {
            Some(SnapshotType::Monthly)
        } else if s == "Weekly"@ || s == "weekly"@ {
            Some(SnapshotType::Weekly)
        } else {
            None
        }
    }

    /// The lower-case name of the type, as it appears in snapshot paths.
    pub open spec fn name_spec(self) -> Seq<char> {
        match self {
            SnapshotType::Manually => "manually"@,
            SnapshotType::Daily => "daily"@,
            SnapshotType::Weekly => "weekly"@,
            SnapshotType::Monthly => "monthly"@,
        }
    }

    /// Parses a type from its name, capitalised or not.
    pub fn get_type(string: &str) -> (r: Option<Self>)
        ensures
            r == Self::from_name_spec(string@),
    {
        if str_eq(string, "Manually") || str_eq(string, "manually") {
            Some(SnapshotType::Manually)
        } else if str_eq(string, "Daily") || str_eq(string, "daily") {
            Some(SnapshotType::Daily)
        } else if str_eq(string, "Monthly") || str_eq(string, "monthly") {
            Some(SnapshotType::Monthly)
        } else if str_eq(string, "Weekly") || str_eq(string, "weekly") {
            Some(SnapshotType::Weekly)
        } else {
            None
        }
    }

    /// The lower-case name of the type.
    pub fn as_ref(&self) -> (r: &'static str)
        ensures
            r@ == self.name_spec(),
    {
        match self {
            SnapshotType::Manually => "manually",
            SnapshotType::Daily => "daily",
            SnapshotType::Weekly => "weekly",
            SnapshotType::Monthly => "monthly",
        }
    }

    /// The type as it is displayed: its lower-case name.
    pub fn to_string(&self) -> (r: String)
        ensures
            r@ == self.name_spec(),
    {
        String::from_str(self.as_ref())
    }
}

/// Parsing the displayed name of a type gives back the type.
pub proof fn lemma_name_round_trip(t: SnapshotType)
    ensures
        SnapshotType::from_name_spec(t.name_spec()) == Some(t),
{
    reveal_strlit("Manually");
    reveal_strlit("manually");
    reveal_strlit("Daily");
    reveal_strlit("daily");
    reveal_strlit("Monthly");
    reveal_strlit("monthly");
    reveal_strlit("Weekly");
    reveal_strlit("weekly");
    assert("daily"@.len() != "Manually"@.len());
    assert("daily"@.len() != "manually"@.len());
    assert("monthly"@.len() != "Manually"@.len());
    assert("monthly"@.len() != "manually"@.len());
    assert("monthly"@.len() != "Daily"@.len());
    assert("monthly"@.len() != "daily"@.len());
    assert("weekly"@.len() != "Manually"@.len());
    assert("weekly"@.len() != "manually"@.len());
    assert("weekly"@.len() != "Daily"@.len());
    assert("weekly"@.len() != "daily"@.len());
    assert("weekly"@.len() != "Monthly"@.len());
    assert("weekly"@.len() != "monthly"@.len());
}

/// What a group snapshot records.
pub struct GroupSnapshotView {
    pub subvolume_snapshots: Seq<SubvolumeSnapshotView>,
    pub date: Seq<char>,
    pub time: Seq<char>,
    pub snapshot_type: SnapshotType,
}

/// The views of a sequence of subvolume snapshots.
pub open spec fn subvolume_snapshot_views(s: Seq<SubvolumeSnapshot>) -> Seq<SubvolumeSnapshotView> {
    s.map_values(|x: SubvolumeSnapshot| x@)
}

/// The related subvolumes of the snapshots, in order, leaving out the
/// snapshots whose subvolume is not known.
pub open spec fn snapshoted_subvolumes_spec(s: Seq<SubvolumeSnapshotView>) -> Seq<Seq<char>>
    decreases s.len(),
{
    if s.len() == 0 {
        Seq::<Seq<char>>::empty()
    } else {
        match s.last().related_subvolume {
            Some(p) => snapshoted_subvolumes_spec(s.drop_last()).push(p),
            None => snapshoted_subvolumes_spec(s.drop_last()),
        }
    }
}

/// The snapshots of a group, taken together: the snapshots of its
/// subvolumes, the date and time they were taken at, and why.
#[derive(Debug)]
pub struct GroupSnapshot {
    subvolume_snapshots: Vec<SubvolumeSnapshot>,
    date: String,
    time: String,
    snapshot_type: SnapshotType,
}

impl View for GroupSnapshot {
    type V = GroupSnapshotView;

    closed spec fn view(&self) -> GroupSnapshotView {
        GroupSnapshotView {
            subvolume_snapshots: subvolume_snapshot_views(self.subvolume_snapshots@),
            date: self.date@,
            time: self.time@,
            snapshot_type: self.snapshot_type,
        }
    }
}

impl GroupSnapshotView {
    /// The group snapshot is the one taken at `date` and `time` for `snapshot_type`.
    pub open spec fn has_key(self, date: Seq<char>, time: Seq<char>, snapshot_type: SnapshotType) -> bool {
        self.date == date && self.time == time && self.snapshot_type == snapshot_type
    }

    /// Directory name of the group snapshot: its date and time joined by `_`.
    pub open spec fn folder_name(self) -> Seq<char> {
        self.date + "_"@ + self.time
    }

    /// Path, below the mount point, of the group snapshot once its group
    /// lives at `new_group_path`: the group path, the type's name, then the
    /// folder name.
    pub open spec fn moved_path(self, new_group_path: Seq<char>) -> Seq<char> {
        path_join_spec(path_join_spec(new_group_path, self.snapshot_type.name_spec()), self.folder_name())
    }
}

impl GroupSnapshot {
    /// An empty group snapshot taken at `date` and `time` for `snapshot_type`.
    pub fn new(date: String, time: String, snapshot_type: SnapshotType) -> (r: Self)
        ensures
            r@ == (GroupSnapshotView {
                subvolume_snapshots: Seq::empty(),
                date: date@,
                time: time@,
                snapshot_type,
            }),
    {
        let r = GroupSnapshot { date, time, subvolume_snapshots: Vec::new(), snapshot_type };
        assert(subvolume_snapshot_views(r.subvolume_snapshots@) =~= Seq::empty());
        r
    }

    /// An empty group snapshot for `snapshot_type`, taken now: in the local
    /// offset where it can be determined, in UTC otherwise.
    pub fn _new_at_current_time(snapshot_type: SnapshotType) -> (r: Self)
        ensures
            exists|f: DateTimeFields|
                f.wf() && r@ == (GroupSnapshotView {
                    subvolume_snapshots: Seq::empty(),
                    date: date_text(f),
                    time: time_text(f),
                    snapshot_type,
                }),
    {
        let (date, time) = get_current_date_time();
        GroupSnapshot::new(date, time, snapshot_type)
    }

    /// Records the snapshot at `full_path` of the subvolume `related_subvolume`.
    pub fn add_snapshot(&mut self, full_path: &str, related_subvolume: String)
        ensures
            final(self)@ == (GroupSnapshotView {
                subvolume_snapshots: old(self)@.subvolume_snapshots.push(
                    SubvolumeSnapshotView {
                        path: full_path@,
                        related_subvolume: Some(related_subvolume@),
                    },
                ),
                ..old(self)@
            }),
    {
        let ghost before = subvolume_snapshot_views(self.subvolume_snapshots@);
        let s = SubvolumeSnapshot::new(String::from_str(full_path), Some(related_subvolume));
        self.subvolume_snapshots.push(s);
        assert(subvolume_snapshot_views(self.subvolume_snapshots@) =~= before.push(s@));
    }

    /// Date the snapshots were taken at.
    pub fn get_date(&self) -> (r: String)
        ensures
            r@ == self@.date,
    {
        self.date.clone()
    }

    /// Time the snapshots were taken at.
    pub fn get_time(&self) -> (r: String)
        ensures
            r@ == self@.time,
    {
        self.time.clone()
    }

    /// Why the snapshots were taken.
    pub fn get_type(&self) -> (r: SnapshotType)
        ensures
            r == self@.snapshot_type,
    {
        self.snapshot_type
    }

    /// The snapshots of the group's subvolumes.
    pub fn get_subvolume_snapshots(&self) -> (r: &[SubvolumeSnapshot])
        ensures
            subvolume_snapshot_views(r@) == self@.subvolume_snapshots,
    {
        self.subvolume_snapshots.as_slice()
    }

    /// Paths of the subvolumes these snapshots were taken of, in order;
    /// snapshots whose subvolume is not known are left out.
    pub fn get_snapshoted_subvolumes(&self) -> (r: Vec<String>)
        ensures
            crate::text::views(r@) == snapshoted_subvolumes_spec(self@.subvolume_snapshots),
    {
        let mut r: Vec<String> = Vec::new();
        let n = self.subvolume_snapshots.len();
        let mut i: usize = 0;
        let ghost all = subvolume_snapshot_views(self.subvolume_snapshots@);
        assert(all.take(0) =~= Seq::<SubvolumeSnapshotView>::empty());
        assert(crate::text::views(r@) =~= Seq::<Seq<char>>::empty());
        while i < n
            invariant
                n == self.subvolume_snapshots@.len(),
                i <= n,
                all == subvolume_snapshot_views(self.subvolume_snapshots@),
                crate::text::views(r@) == snapshoted_subvolumes_spec(all.take(i as int)),
            decreases n - i,
        {
            let ghost before = crate::text::views(r@);
            proof {
                assert(all.take(i + 1).drop_last() =~= all.take(i as int));
                assert(all.take(i + 1).last() == self.subvolume_snapshots@[i as int]@);
            }
            match self.subvolume_snapshots[i].get_related_subvolume() {
                Some(p) => {
                    let ghost pv = p@;
                    r.push(p);
                    assert(crate::text::views(r@) =~= before.push(pv));
                },
                None => {},
            }
            i = i + 1;
        }
        assert(all.take(n as int) =~= all);
        r
    }

    /// Whether this is the group snapshot taken at the date and time of
    /// `other` for its type.
    pub fn eq(&self, other: &(&str, &str, &SnapshotType)) -> (r: bool)
        ensures
            r == self@.has_key(other.0@, other.1@, *other.2),
    {
        str_eq(self.date.as_str(), other.0) && str_eq(self.time.as_str(), other.1)
            && self.snapshot_type == *other.2
    }

    /// The arguments of the `btrfs` command that deletes these snapshots:
    /// `subvolume delete` followed by the full path of each snapshot.
    pub fn delete_args(&self) -> (r: Vec<String>)
        ensures
            r@.len() == self@.subvolume_snapshots.len() + 2,
            r@[0]@ == "subvolume"@,
            r@[1]@ == "delete"@,
            forall|i: int|
                0 <= i < self@.subvolume_snapshots.len() ==> #[trigger] r@[i + 2]@ == path_join_spec(
                    crate::globals::MOUNT_POINT@,
                    self@.subvolume_snapshots[i].path,
                ),
    {
        let mut args: Vec<String> = Vec::new();
        args.push(String::from_str("subvolume"));
        args.push(String::from_str("delete"));
        let n = self.subvolume_snapshots.len();
        let mut i: usize = 0;
        while i < n
            invariant
                n == self.subvolume_snapshots@.len(),
                i <= n,
                args@.len() == i + 2,
                args@[0]@ == "subvolume"@,
                args@[1]@ == "delete"@,
                forall|j: int|
                    0 <= j < i ==> #[trigger] args@[j + 2]@ == path_join_spec(
                        crate::globals::MOUNT_POINT@,
                        self@.subvolume_snapshots[j].path,
                    ),
            decreases n - i,
        {
            args.push(self.subvolume_snapshots[i].get_fullpath());
            i = i + 1;
        }
        args
    }

    /// Where each snapshot goes when the group moves to `new_group_path`
    /// (below the mount point, e.g. `tram_btrfs/snapshot_groups/new_name`):
    /// one outcome per snapshot, in order, into the directory
    /// `new_group_path/<type>/<date>_<time>`.
    pub fn rename_group_snapshot(&self, new_group_path: &str) -> (r: Vec<Result<SnapshotMove, AppError>>)
        ensures
            r@.len() == self@.subvolume_snapshots.len(),
            forall|i: int|
                0 <= i < r@.len() ==> move_outcome(
                    self@.subvolume_snapshots[i],
                    self@.moved_path(new_group_path@),
                    #[trigger] r@[i],
                ),
    {
        let type_dir = path_join(new_group_path, self.snapshot_type.as_ref());
        let mut folder = self.date.clone();
        folder.append("_");
        folder.append(self.time.as_str());
        let dir = path_join(type_dir.as_str(), folder.as_str());
        assert(dir@ == self@.moved_path(new_group_path@));
        let mut out: Vec<Result<SnapshotMove, AppError>> = Vec::new();
        let n = self.subvolume_snapshots.len();
        let mut i: usize = 0;
        while i < n
            invariant
                n == self.subvolume_snapshots@.len(),
                i <= n,
                out@.len() == i,
                dir@ == self@.moved_path(new_group_path@),
                forall|j: int|
                    0 <= j < i ==> move_outcome(
                        self@.subvolume_snapshots[j],
                        dir@,
                        #[trigger] out@[j],
                    ),
            decreases n - i,
        {
            out.push(self.subvolume_snapshots[i].move_snapshot(dir.as_str()));
            i = i + 1;
        }
        out
    }
}

} // verus!
