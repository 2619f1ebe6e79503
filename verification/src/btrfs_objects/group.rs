//! A snapshot group: named subvolumes that are snapshotted together, and
//! the group snapshots found for them.
use vstd::prelude::*;
use crate::btrfs_objects::group_snapshot::{GroupSnapshot, GroupSnapshotView, SnapshotType};
use crate::btrfs_objects::subvolume_snapshot::{SnapshotMove, SubvolumeSnapshotView, move_outcome};
use crate::error::{AppError, throw_invalid_index, invalid_index_message};
use crate::globals::{GROUPS_DIRECTORY_NAME, TOP_DIRECTORY_NAME};
use crate::paths::{path_eq, path_join, path_join_spec, same_path};
use crate::text::{split_once, split_once_spec, str_eq, views};

verus! {

/// What a group records.
pub struct GroupView {
    pub name: Seq<char>,
    /// Paths of the subvolumes in the group, as loaded from the configuration.
    pub subvolumes: Seq<Seq<char>>,
    pub snapshots: Seq<GroupSnapshotView>,
}

/// The views of a sequence of group snapshots.
pub open spec fn group_snapshot_views(s: Seq<GroupSnapshot>) -> Seq<GroupSnapshotView> {
    s.map_values(|x: GroupSnapshot| x@)
}

/// The views of a sequence of groups.
pub open spec fn group_views(s: Seq<Group>) -> Seq<GroupView> {
    s.map_values(|g: Group| g@)
}

/// Index of the first group snapshot taken at `date` and `time` for `t`.
pub open spec fn first_with_key(
    snaps: Seq<GroupSnapshotView>,
    date: Seq<char>,
    time: Seq<char>,
    t: SnapshotType,
) -> Option<int> {
    if exists|i: int|
        0 <= i < snaps.len() && #[trigger] snaps[i].has_key(date, time, t) && forall|j: int|
            0 <= j < i ==> !(#[trigger] snaps[j].has_key(date, time, t)) {
        Some(
            choose|i: int|
                0 <= i < snaps.len() && #[trigger] snaps[i].has_key(date, time, t) && forall|j: int|
                    0 <= j < i ==> !(#[trigger] snaps[j].has_key(date, time, t)),
        )
    } else {
        None
    }
}

/// `first_with_key` names the first group snapshot with the key.
pub proof fn lemma_first_with_key(
    snaps: Seq<GroupSnapshotView>,
    date: Seq<char>,
    time: Seq<char>,
    t: SnapshotType,
    i: int,
)
    requires
        0 <= i < snaps.len(),
        snaps[i].has_key(date, time, t),
        forall|j: int| 0 <= j < i ==> !(#[trigger] snaps[j].has_key(date, time, t)),
    ensures
        first_with_key(snaps, date, time, t) == Some(i),
{
    let k = choose|k: int|
        0 <= k < snaps.len() && #[trigger] snaps[k].has_key(date, time, t) && forall|j: int|
            0 <= j < k ==> !(#[trigger] snaps[j].has_key(date, time, t));
    assert(snaps[i].has_key(date, time, t));
    if k < i {
        assert(!snaps[k].has_key(date, time, t));
    }
    if k > i {
        assert(!snaps[i].has_key(date, time, t));
    }
}

/// The group with the snapshot at `raw` of `related` recorded under the
/// key (`date`, `time`, `t`): added to the first group snapshot with that
/// key, or to a new group snapshot put at the end.
pub open spec fn with_snapshot(
    g: GroupView,
    raw: Seq<char>,
    date: Seq<char>,
    time: Seq<char>,
    t: SnapshotType,
    related: Seq<char>,
) -> GroupView {
    let ss = SubvolumeSnapshotView { path: raw, related_subvolume: Some(related) };
    match first_with_key(g.snapshots, date, time, t) {
        Some(k) => GroupView {
            snapshots: g.snapshots.update(
                k,
                GroupSnapshotView {
                    subvolume_snapshots: g.snapshots[k].subvolume_snapshots.push(ss),
                    ..g.snapshots[k]
                },
            ),
            ..g
        },
        None => GroupView {
            snapshots: g.snapshots.push(
                GroupSnapshotView {
                    subvolume_snapshots: seq![ss],
                    date,
                    time,
                    snapshot_type: t,
                },
            ),
            ..g
        },
    }
}

/// No two group snapshots share a date, time and type.
pub open spec fn keys_unique(snaps: Seq<GroupSnapshotView>) -> bool {
    forall|i: int, j: int|
        0 <= i < j < snaps.len() ==> !(#[trigger] snaps[j]).has_key(
            #[trigger] snaps[i].date,
            snaps[i].time,
            snaps[i].snapshot_type,
        )
}

/// Some path of `available` is the same path as `p`.
pub open spec fn listed(available: Seq<Seq<char>>, p: Seq<char>) -> bool {
    exists|j: int| 0 <= j < available.len() && same_path(#[trigger] available[j], p)
}

/// The test "is listed in `available`", as a predicate.
pub open spec fn listed_in(available: Seq<Seq<char>>) -> spec_fn(Seq<char>) -> bool {
    |p: Seq<char>| listed(available, p)
}

/// The test "is not listed in `available`", as a predicate.
pub open spec fn unlisted_in(available: Seq<Seq<char>>) -> spec_fn(Seq<char>) -> bool {
    |p: Seq<char>| !listed(available, p)
}

/// The subvolumes kept and the paths removed when the subvolumes `s` are
/// checked from position `i` on against `available`, with `removed`
/// removed so far: a listed subvolume is kept and the check moves on; an
/// unlisted one is removed, the last subvolume takes its place, and that
/// place is checked next.
pub open spec fn swap_remove_unlisted(
    s: Seq<Seq<char>>,
    i: nat,
    removed: Seq<Seq<char>>,
    available: Seq<Seq<char>>,
) -> (Seq<Seq<char>>, Seq<Seq<char>>)
    decreases s.len() - i,
{
    if i >= s.len() {
        (s, removed)
    } else if listed(available, s[i as int]) {
        swap_remove_unlisted(s, i + 1, removed, available)
    } else {
        swap_remove_unlisted(
            s.update(i as int, s.last()).drop_last(),
            i,
            removed.push(s[i as int]),
            available,
        )
    }
}

/// Removing the element at `i` by moving the last one into its place takes
/// exactly that element out of the multiset.
pub proof fn lemma_swap_remove_multiset<A>(s: Seq<A>, i: int)
    requires
        0 <= i < s.len(),
    ensures
        s.update(i, s.last()).drop_last().to_multiset() == s.to_multiset().remove(s[i]),
{
    broadcast use vstd::seq_lib::group_to_multiset_ensures;
    broadcast use vstd::multiset::group_multiset_axioms;

    if i == s.len() - 1 {
        assert(s.update(i, s.last()).drop_last() =~= s.remove(i));
    } else {
        let d = s.drop_last();
        assert(s.update(i, s.last()).drop_last() =~= d.update(i, s.last()));
        vstd::seq_lib::to_multiset_update(d, i, s.last());
        assert(s =~= d.push(s.last()));
        assert(d[i] == s[i]);
        assert(s.to_multiset() == d.to_multiset().insert(s.last()));
    }
}

/// Checking the subvolumes `s` from position `i` on appends to `removed`
/// exactly the subvolumes of `s[i..]` that are not listed in `available`,
/// each as often as it occurs there.
pub proof fn lemma_swap_remove_unlisted_removes(
    s: Seq<Seq<char>>,
    i: nat,
    removed: Seq<Seq<char>>,
    available: Seq<Seq<char>>,
)
    requires
        i <= s.len(),
    ensures
        ({
            let r = swap_remove_unlisted(s, i, removed, available).1;
            &&& removed.len() <= r.len()
            &&& r.take(removed.len() as int) == removed
            &&& r.skip(removed.len() as int).to_multiset() == s.skip(i as int).to_multiset().filter(
                unlisted_in(available),
            )
        }),
    decreases s.len() - i,
{
    broadcast use vstd::seq_lib::group_to_multiset_ensures;
    broadcast use vstd::multiset::group_multiset_axioms;

    let n = removed.len() as int;
    let r = swap_remove_unlisted(s, i, removed, available).1;
    if i >= s.len() {
        assert(r.take(n) =~= removed);
        assert(r.skip(n) =~= Seq::<Seq<char>>::empty());
        assert(s.skip(i as int) =~= Seq::<Seq<char>>::empty());
        assert(r.skip(n).to_multiset() =~= s.skip(i as int).to_multiset().filter(unlisted_in(available)));
    } else if listed(available, s[i as int]) {
        lemma_swap_remove_unlisted_removes(s, i + 1, removed, available);
        let rest = s.skip(i as int + 1);
        assert(s.skip(i as int) =~= rest.insert(0, s[i as int]));
        vstd::seq_lib::to_multiset_insert(rest, 0, s[i as int]);
        assert(r.skip(n).to_multiset() =~= s.skip(i as int).to_multiset().filter(unlisted_in(available)));
    } else {
        let x = s[i as int];
        let s2 = s.update(i as int, s.last()).drop_last();
        lemma_swap_remove_unlisted_removes(s2, i, removed.push(x), available);
        assert(r.take(n + 1) == removed.push(x));
        assert(r.take(n) =~= removed.push(x).take(n));
        assert(removed.push(x).take(n) =~= removed);
        assert(r[n] == removed.push(x)[n]);
        let tail = r.skip(n + 1);
        assert(r.skip(n) =~= tail.insert(0, x));
        vstd::seq_lib::to_multiset_insert(tail, 0, x);
        let t = s.skip(i as int);
        assert(t.update(0, t.last()).drop_last() =~= s2.skip(i as int));
        lemma_swap_remove_multiset(t, 0);
        assert(t[0] == x);
        vstd::seq_lib::to_multiset_contains(t, x);
        assert forall|y: Seq<char>|
            #[trigger] r.skip(n).to_multiset().count(y) == t.to_multiset().filter(unlisted_in(available)).count(y) by {
            if y == x {
                assert(t.contains(x));
            }
        }
        assert(r.skip(n).to_multiset() =~= t.to_multiset().filter(unlisted_in(available)));
    }
}

/// Path, below the mount point, where the snapshots of a group named
/// `name` live: `tram_btrfs/snapshot_groups/<name>`.
pub open spec fn group_path_spec(name: Seq<char>) -> Seq<char> {
    path_join_spec(path_join_spec(TOP_DIRECTORY_NAME@, GROUPS_DIRECTORY_NAME@), name)
}

/// Whether `p` is the same path as one of `available`.
pub fn path_listed(available: &[String], p: &str) -> (r: bool)
    ensures
        r == listed(views(available@), p@),
{
    let n = available.len();
    let mut i: usize = 0;
    while i < n
        invariant
            n == available@.len(),
            i <= n,
            forall|j: int| 0 <= j < i ==> !same_path(#[trigger] views(available@)[j], p@),
        decreases n - i,
    {
        if path_eq(available[i].as_str(), p) {
            assert(same_path(views(available@)[i as int], p@));
            return true;
        }
        i = i + 1;
    }
    false
}

/// A group of subvolumes that are snapshotted together.
#[derive(Debug)]
pub struct Group {
    group_name: String,
    subvolumes: Vec<String>,
    snapshots: Vec<GroupSnapshot>,
}

impl View for Group {
    type V = GroupView;

    closed spec fn view(&self) -> GroupView {
        GroupView {
            name: self.group_name@,
            subvolumes: views(self.subvolumes@),
            snapshots: group_snapshot_views(self.snapshots@),
        }
    }
}

impl Group {
    /// A group named `group_name` of the subvolumes at `subvolumes`, with no
    /// snapshots yet.
    pub fn new(group_name: String, subvolumes: Vec<String>) -> (r: Self)
        ensures
            r@ == (GroupView {
                name: group_name@,
                subvolumes: views(subvolumes@),
                snapshots: Seq::empty(),
            }),
    {
        let r = Group { group_name, subvolumes, snapshots: Vec::new() };
        assert(group_snapshot_views(r.snapshots@) =~= Seq::empty());
        r
    }

    /// Name of the group.
    pub fn get_name(&self) -> (r: &str)
        ensures
            r@ == self@.name,
    {
        self.group_name.as_str()
    }

    /// Paths of the subvolumes in the group.
    pub fn get_subvolumes(&self) -> (r: &[String])
        ensures
            views(r@) == self@.subvolumes,
    {
        self.subvolumes.as_slice()
    }

    /// The group snapshots found for the group.
    pub fn get_snapshots(&self) -> (r: &[GroupSnapshot])
        ensures
            group_snapshot_views(r@) == self@.snapshots,
    {
        self.snapshots.as_slice()
    }

    /// Whether the group is named `other`.
    pub fn eq(&self, other: &str) -> (r: bool)
        ensures
            r == (self@.name == other@),
    {
        str_eq(self.group_name.as_str(), other)
    }

    /// Records the snapshot at `raw_path` of the subvolume `related_subvolume`,
    /// found in the directory of type `snapshot_type` and folder `datetime`
    /// (`<date>_<time>`). For example, the snapshot of the subvolume
    /// `archlinux/@home` lives at
    /// `tram_btrfs/snapshot_groups/default/manually/2026-04-16_21:26:00/archlinux/@home`.
    /// Returns whether the snapshot was recorded: it is not where the type
    /// is unknown or the folder has no `_`.
    pub fn add_snapshot(
        &mut self,
        raw_path: &str,
        snapshot_type: &str,
        datetime: &str,
        related_subvolume: String,
    ) -> (r: bool)
        ensures
            match (SnapshotType::from_name_spec(snapshot_type@), split_once_spec(datetime@, '_')) {
                (Some(t), Some((d, tm))) => r && final(self)@ == with_snapshot(
                    old(self)@,
                    raw_path@,
                    d,
                    tm,
                    t,
                    related_subvolume@,
                ),
                _ => !r && final(self)@ == old(self)@,
            },
    {
        let t = match SnapshotType::get_type(snapshot_type) {
            Some(t) => t,
            None => return false,
        };
        let (date, time) = match split_once(datetime, '_') {
            Some(p) => p,
            None => return false,
        };
        let ghost snaps = group_snapshot_views(self.snapshots@);
        let n = self.snapshots.len();
        let mut k: usize = 0;
        while k < n
            invariant
                n == self.snapshots@.len(),
                k <= n,
                snaps == group_snapshot_views(self.snapshots@),
                forall|j: int| 0 <= j < k ==> !(#[trigger] snaps[j]).has_key(date@, time@, t),
            ensures
                k <= n,
                k < n ==> snaps[k as int].has_key(date@, time@, t),
                forall|j: int| 0 <= j < k ==> !(#[trigger] snaps[j]).has_key(date@, time@, t),
            decreases n - k,
        {
            if self.snapshots[k].eq(&(date.as_str(), time.as_str(), &t)) {
                break;
            }
            k = k + 1;
        }
        if k < n {
            proof {
                lemma_first_with_key(snaps, date@, time@, t, k as int);
            }
            let mut gs = self.snapshots.remove(k);
            gs.add_snapshot(raw_path, related_subvolume);
            self.snapshots.insert(k, gs);
            assert(group_snapshot_views(self.snapshots@) =~= with_snapshot(
                old(self)@,
                raw_path@,
                date@,
                time@,
                t,
                related_subvolume@,
            ).snapshots);
        } else {
            assert(first_with_key(snaps, date@, time@, t) is None);
            let mut gs = GroupSnapshot::new(date, time, t);
            gs.add_snapshot(raw_path, related_subvolume);
            self.snapshots.push(gs);
            assert(group_snapshot_views(self.snapshots@) =~= with_snapshot(
                old(self)@,
                raw_path@,
                date@,
                time@,
                t,
                related_subvolume@,
            ).snapshots);
        }
        true
    }

    /// Keeps the subvolumes of the group that are among
    /// `available_subvolumes` (by path) and moves the others to the end of
    /// `removed_subvolume`. The order of the kept subvolumes is not
    /// preserved: each removal puts the last subvolume in its place.
    pub fn verify_subvolumes(&mut self, available_subvolumes: &[String], removed_subvolume: &mut Vec<String>)
        ensures
            final(self)@.name == old(self)@.name,
            final(self)@.snapshots == old(self)@.snapshots,
            final(self)@.subvolumes.to_multiset() == old(self)@.subvolumes.to_multiset().filter(
                listed_in(views(available_subvolumes@)),
            ),
            forall|i: int|
                0 <= i < final(self)@.subvolumes.len() ==> listed(
                    views(available_subvolumes@),
                    #[trigger] final(self)@.subvolumes[i],
                ),
            views(final(removed_subvolume)@).len() >= views(old(removed_subvolume)@).len(),
            views(final(removed_subvolume)@).take(old(removed_subvolume)@.len() as int) == views(
                old(removed_subvolume)@,
            ),
            views(final(removed_subvolume)@).skip(old(removed_subvolume)@.len() as int).to_multiset()
                == old(self)@.subvolumes.to_multiset().filter(unlisted_in(views(available_subvolumes@))),
            (final(self)@.subvolumes, views(final(removed_subvolume)@)) == swap_remove_unlisted(
                old(self)@.subvolumes,
                0,
                views(old(removed_subvolume)@),
                views(available_subvolumes@),
            ),
    {
        broadcast use vstd::seq_lib::group_to_multiset_ensures;
        broadcast use vstd::multiset::group_multiset_axioms;

        let ghost orig = views(self.subvolumes@);
        let ghost avail = views(available_subvolumes@);
        let ghost r0 = views(removed_subvolume@);
        let ghost n0 = removed_subvolume@.len();
        let mut i: usize = 0;
        assert(views(removed_subvolume@).skip(n0 as int) =~= Seq::<Seq<char>>::empty());
        assert(views(removed_subvolume@).take(n0 as int) =~= r0);
        assert(orig.to_multiset().add(Seq::<Seq<char>>::empty().to_multiset()) =~= orig.to_multiset());
        while i < self.subvolumes.len()
            invariant
                i <= self.subvolumes@.len(),
                avail == views(available_subvolumes@),
                self.group_name@ == old(self).group_name@,
                self.snapshots@ == old(self).snapshots@,
                orig == old(self)@.subvolumes,
                n0 == old(removed_subvolume)@.len(),
                r0 == views(old(removed_subvolume)@),
                removed_subvolume@.len() >= n0,
                views(removed_subvolume@).take(n0 as int) == r0,
                forall|j: int| 0 <= j < i ==> listed(avail, #[trigger] views(self.subvolumes@)[j]),
                forall|j: int|
                    0 <= j < views(removed_subvolume@).skip(n0 as int).len() ==> !listed(
                        avail,
                        #[trigger] views(removed_subvolume@).skip(n0 as int)[j],
                    ),
                views(self.subvolumes@).to_multiset().add(
                    views(removed_subvolume@).skip(n0 as int).to_multiset(),
                ) == orig.to_multiset(),
                swap_remove_unlisted(orig, 0, r0, avail) == swap_remove_unlisted(
                    views(self.subvolumes@),
                    i as nat,
                    views(removed_subvolume@),
                    avail,
                ),
            decreases self.subvolumes@.len() - i,
        {
            let ghost cur = views(self.subvolumes@);
            let ghost added = views(removed_subvolume@).skip(n0 as int);
            let ghost old_removed = *removed_subvolume;
            if path_listed(available_subvolumes, self.subvolumes[i].as_str()) {
                i = i + 1;
            } else {
                let x = self.subvolumes.swap_remove(i);
                removed_subvolume.push(x);
                proof {
                    assert(views(self.subvolumes@) =~= cur.update(i as int, cur.last()).drop_last());
                    lemma_swap_remove_multiset(cur, i as int);
                    assert(views(removed_subvolume@).skip(n0 as int) =~= added.push(x@));
                    assert(views(removed_subvolume@) =~= views(old_removed@).push(x@));
                    assert(views(removed_subvolume@).take(n0 as int) =~= r0);
                    assert(cur[i as int] == x@);
                    assert(cur.contains(x@));
                    vstd::seq_lib::to_multiset_contains(cur, x@);
                    vstd::seq_lib::to_multiset_build(added, x@);
                    assert(cur.to_multiset().count(x@) > 0);
                    let a = views(self.subvolumes@).to_multiset();
                    let b = views(removed_subvolume@).skip(n0 as int).to_multiset();
                    assert(a == cur.to_multiset().remove(x@));
                    assert(b == added.to_multiset().insert(x@));
                    assert forall|y: Seq<char>| #[trigger] a.add(b).count(y) == orig.to_multiset().count(y) by {
                        assert(cur.to_multiset().add(added.to_multiset()).count(y) == orig.to_multiset().count(y));
                    }
                    assert(views(self.subvolumes@).to_multiset().add(
                        views(removed_subvolume@).skip(n0 as int).to_multiset(),
                    ) =~= orig.to_multiset());
                    assert forall|j: int| 0 <= j < i implies listed(avail, #[trigger] views(self.subvolumes@)[j]) by {
                        assert(views(self.subvolumes@)[j] == cur[j]);
                    }
                }
            }
        }
        proof {
            let cur = views(self.subvolumes@);
            let added = views(removed_subvolume@).skip(n0 as int);
            assert forall|x: Seq<char>| #[trigger] cur.to_multiset().count(x) == orig.to_multiset().filter(
                listed_in(avail),
            ).count(x) by {
                if listed(avail, x) {
                    if added.contains(x) {
                        let j = choose|j: int| 0 <= j < added.len() && added[j] == x;
                        assert(!listed(avail, added[j]));
                    }
                } else {
                    if cur.contains(x) {
                        let j = choose|j: int| 0 <= j < cur.len() && cur[j] == x;
                        assert(listed(avail, cur[j]));
                    }
                }
            }
            assert(cur.to_multiset() =~= orig.to_multiset().filter(listed_in(avail)));
            assert forall|x: Seq<char>| #[trigger] added.to_multiset().count(x) == orig.to_multiset().filter(
                unlisted_in(avail),
            ).count(x) by {
                if listed(avail, x) {
                    if added.contains(x) {
                        let j = choose|j: int| 0 <= j < added.len() && added[j] == x;
                        assert(!listed(avail, added[j]));
                    }
                } else {
                    if cur.contains(x) {
                        let j = choose|j: int| 0 <= j < cur.len() && cur[j] == x;
                        assert(listed(avail, cur[j]));
                    }
                }
            }
            assert(added.to_multiset() =~= orig.to_multiset().filter(unlisted_in(avail)));
        }
    }

    /// Adds the subvolume at `subvol` to the group.
    pub fn add_subvolume(&mut self, subvol: &str)
        ensures
            final(self)@ == (GroupView { subvolumes: old(self)@.subvolumes.push(subvol@), ..old(self)@ }),
    {
        let ghost before = views(self.subvolumes@);
        self.subvolumes.push(String::from_str(subvol));
        assert(views(self.subvolumes@) =~= before.push(subvol@));
    }

    /// Takes the group snapshot at `index` out of the group and returns it;
    /// an index past the end is an internal error.
    pub fn delete_snapshot(&mut self, index: usize) -> (r: Result<GroupSnapshot, AppError>)
        ensures
            index < old(self)@.snapshots.len() ==> (r matches Ok(gs) && gs@ == old(self)@.snapshots[index as int]
                && final(self)@ == (GroupView {
                snapshots: old(self)@.snapshots.remove(index as int),
                ..old(self)@
            })),
            index >= old(self)@.snapshots.len() ==> final(self)@ == old(self)@,
            index >= old(self)@.snapshots.len() ==> (r matches Err(AppError::Bug(m))
                && m@ == invalid_index_message(index as nat, "deleting snapshot"@)),
    {
        if index < self.snapshots.len() {
            let ghost before = group_snapshot_views(self.snapshots@);
            let gs = self.snapshots.remove(index);
            assert(group_snapshot_views(self.snapshots@) =~= before.remove(index as int));
            Ok(gs)
        } else {
            throw_invalid_index(index, "deleting snapshot")
        }
    }

    /// Renames the group to `new_name` and says where each of its snapshots
    /// goes: from its place to the same place under
    /// `tram_btrfs/snapshot_groups/<new_name>`, one list of outcomes per
    /// group snapshot, in order. A group without snapshots keeps its name.
    pub fn rename_group(&mut self, new_name: String) -> (r: Vec<Vec<Result<SnapshotMove, AppError>>>)
        ensures
            old(self)@.snapshots.len() == 0 ==> final(self)@ == old(self)@,
            old(self)@.snapshots.len() > 0 ==> final(self)@ == (GroupView { name: new_name@, ..old(self)@ }),
            r@.len() == old(self)@.snapshots.len(),
            forall|i: int|
                0 <= i < r@.len() ==> (#[trigger] r@[i])@.len()
                    == old(self)@.snapshots[i].subvolume_snapshots.len(),
            forall|i: int, j: int|
                0 <= i < r@.len() && 0 <= j < r@[i]@.len() ==> move_outcome(
                    old(self)@.snapshots[i].subvolume_snapshots[j],
                    old(self)@.snapshots[i].moved_path(group_path_spec(new_name@)),
                    #[trigger] r@[i]@[j],
                ),
    {
        let mut plan: Vec<Vec<Result<SnapshotMove, AppError>>> = Vec::new();
        if self.snapshots.len() > 0 {
            let groups_dir = path_join(TOP_DIRECTORY_NAME, GROUPS_DIRECTORY_NAME);
            let new_group_path = path_join(groups_dir.as_str(), new_name.as_str());
            let n = self.snapshots.len();
            let mut i: usize = 0;
            while i < n
                invariant
                    n == self.snapshots@.len(),
                    i <= n,
                    plan@.len() == i,
                    new_group_path@ == group_path_spec(new_name@),
                    forall|k: int|
                        0 <= k < i ==> (#[trigger] plan@[k])@.len()
                            == group_snapshot_views(self.snapshots@)[k].subvolume_snapshots.len(),
                    forall|k: int, j: int|
                        0 <= k < i && 0 <= j < plan@[k]@.len() ==> move_outcome(
                            group_snapshot_views(self.snapshots@)[k].subvolume_snapshots[j],
                            group_snapshot_views(self.snapshots@)[k].moved_path(group_path_spec(new_name@)),
                            #[trigger] plan@[k]@[j],
                        ),
                decreases n - i,
            {
                let moves = self.snapshots[i].rename_group_snapshot(new_group_path.as_str());
                plan.push(moves);
                i = i + 1;
            }
            self.group_name = new_name;
        }
        plan
    }
}

/// Recording a snapshot keeps the group snapshots' keys distinct.
pub proof fn lemma_add_snapshot_keeps_keys_unique(
    g: GroupView,
    raw: Seq<char>,
    date: Seq<char>,
    time: Seq<char>,
    t: SnapshotType,
    related: Seq<char>,
)
    requires
        keys_unique(g.snapshots),
    ensures
        keys_unique(with_snapshot(g, raw, date, time, t, related).snapshots),
{
    let s = with_snapshot(g, raw, date, time, t, related).snapshots;
    match first_with_key(g.snapshots, date, time, t) {
        Some(k) => {
            assert forall|i: int, j: int| 0 <= i < j < s.len() implies !(#[trigger] s[j]).has_key(
                #[trigger] s[i].date,
                s[i].time,
                s[i].snapshot_type,
            ) by {
                assert(g.snapshots[j].has_key(s[j].date, s[j].time, s[j].snapshot_type));
                assert(!g.snapshots[j].has_key(g.snapshots[i].date, g.snapshots[i].time, g.snapshots[i].snapshot_type));
            }
        },
        None => {
            assert forall|i: int, j: int| 0 <= i < j < s.len() implies !(#[trigger] s[j]).has_key(
                #[trigger] s[i].date,
                s[i].time,
                s[i].snapshot_type,
            ) by {
                if j == g.snapshots.len() {
                    assert(s[i] == g.snapshots[i]);
                    assert(!g.snapshots[i].has_key(date, time, t));
                } else {
                    assert(!g.snapshots[j].has_key(g.snapshots[i].date, g.snapshots[i].time, g.snapshots[i].snapshot_type));
                }
            }
        },
    }
}

/// A recorded snapshot is the last snapshot of a group snapshot with its
/// key; every other group snapshot stays as it was, and the group's name
/// and subvolumes do not change.
pub proof fn lemma_add_snapshot_records(
    g: GroupView,
    raw: Seq<char>,
    date: Seq<char>,
    time: Seq<char>,
    t: SnapshotType,
    related: Seq<char>,
)
    ensures
        ({
            let h = with_snapshot(g, raw, date, time, t, related);
            &&& h.name == g.name
            &&& h.subvolumes == g.subvolumes
            &&& exists|k: int|
                0 <= k < h.snapshots.len() && #[trigger] h.snapshots[k].has_key(date, time, t)
                    && h.snapshots[k].subvolume_snapshots.last() == (SubvolumeSnapshotView {
                    path: raw,
                    related_subvolume: Some(related),
                }) && forall|j: int|
                    0 <= j < g.snapshots.len() && j != k ==> #[trigger] h.snapshots[j]
                        == g.snapshots[j]
        }),
{
    let h = with_snapshot(g, raw, date, time, t, related);
    match first_with_key(g.snapshots, date, time, t) {
        Some(k) => {
            assert(h.snapshots[k].has_key(date, time, t));
        },
        None => {
            let k = g.snapshots.len() as int;
            assert(h.snapshots[k].has_key(date, time, t));
        },
    }
}

/// How many subvolume snapshots the group snapshots hold together.
pub open spec fn snapshot_count(snaps: Seq<GroupSnapshotView>) -> nat
    decreases snaps.len(),
{
    if snaps.len() == 0 {
        0
    } else {
        snapshot_count(snaps.drop_last()) + snaps.last().subvolume_snapshots.len()
    }
}

/// Replacing one group snapshot changes the count by the difference.
pub proof fn lemma_snapshot_count_update(snaps: Seq<GroupSnapshotView>, k: int, x: GroupSnapshotView)
    requires
        0 <= k < snaps.len(),
    ensures
        snapshot_count(snaps.update(k, x)) + snaps[k].subvolume_snapshots.len() == snapshot_count(snaps)
            + x.subvolume_snapshots.len(),
    decreases snaps.len(),
{
    if k == snaps.len() - 1 {
        assert(snaps.update(k, x).drop_last() =~= snaps.drop_last());
    } else {
        lemma_snapshot_count_update(snaps.drop_last(), k, x);
        assert(snaps.update(k, x).drop_last() =~= snaps.drop_last().update(k, x));
    }
}

/// Recording a snapshot adds exactly one subvolume snapshot to the group.
pub proof fn lemma_add_snapshot_counts_one(
    g: GroupView,
    raw: Seq<char>,
    date: Seq<char>,
    time: Seq<char>,
    t: SnapshotType,
    related: Seq<char>,
)
    ensures
        snapshot_count(with_snapshot(g, raw, date, time, t, related).snapshots) == snapshot_count(g.snapshots) + 1,
{
    let h = with_snapshot(g, raw, date, time, t, related).snapshots;
    match first_with_key(g.snapshots, date, time, t) {
        Some(k) => {
            lemma_snapshot_count_update(g.snapshots, k, h[k]);
        },
        None => {
            assert(h.drop_last() =~= g.snapshots);
        },
    }
}

} // verus!
