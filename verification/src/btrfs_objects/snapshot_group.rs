//! A named group of subvolumes as the configuration lists them.
use vstd::prelude::*;
use crate::btrfs_objects::snapshot::{GroupSnapshot, GroupSnapshotRecord};
use crate::text::{str_eq, views};

verus! {

/// What a snapshot group records.
pub struct SnapshotGroupView {
    pub name: Seq<char>,
    pub subvolumes_config: Seq<Seq<char>>,
    pub snapshots: Seq<GroupSnapshotRecord>,
}

/// A named group of subvolumes, with the paths the configuration gives.
#[derive(Debug)]
pub struct SnapshotGroup {
    group_name: String,
    subvolumes_config: Vec<String>,
    snapshots: Vec<GroupSnapshot>,
}

impl View for SnapshotGroup {
    type V = SnapshotGroupView;

    closed spec fn view(&self) -> SnapshotGroupView {
        SnapshotGroupView {
            name: self.group_name@,
            subvolumes_config: views(self.subvolumes_config@),
            snapshots: self.snapshots@.map_values(|g: GroupSnapshot| g@),
        }
    }
}

impl SnapshotGroup {
    /// A group named `group_name` of the subvolume paths `subvolumes`, with no
    /// snapshots yet.
    pub fn new(group_name: String, subvolumes: Vec<String>) -> (r: Self)
        ensures
            r@ == (SnapshotGroupView {
                name: group_name@,
                subvolumes_config: views(subvolumes@),
                snapshots: Seq::empty(),
            }),
    {
        let r = SnapshotGroup { group_name, subvolumes_config: subvolumes, snapshots: Vec::new() };
        assert(r.snapshots@.map_values(|g: GroupSnapshot| g@) =~= Seq::empty());
        r
    }

    /// Whether the group is named `other`.
    pub fn eq(&self, other: &str) -> (r: bool)
        ensures
            r == (self@.name == other@),
    {
        str_eq(self.group_name.as_str(), other)
    }
}

} // verus!
