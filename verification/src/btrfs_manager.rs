//! The state of the managed partition: its subvolumes, the configured
//! groups with the snapshots found for them, and the snapshots that could
//! not be placed in a group.
use vstd::prelude::*;
use vstd::multiset::Multiset;
use crate::app_config::{AppConfig, AutoSnapshotSchedule, renamed_at, rename_plan};
use crate::btrfs_objects::group_snapshot::GroupSnapshot;
use crate::btrfs_objects::subvolume_snapshot::SnapshotMove;
use crate::error::{throw_invalid_index, invalid_index_message};
use crate::btrfs_objects::group::{
    Group, GroupView, group_views, with_snapshot, listed_in, unlisted_in, keys_unique, snapshot_count,
    lemma_add_snapshot_keeps_keys_unique, lemma_add_snapshot_counts_one,
};
use crate::btrfs_objects::group::{group_path_spec, swap_remove_unlisted, lemma_swap_remove_unlisted_removes};
use crate::btrfs_objects::group_snapshot::{GroupSnapshotView, SnapshotType, lemma_name_round_trip};
use crate::globals::MOUNT_POINT;
use crate::paths::path_join_spec;
use crate::text::{
    lemma_join_split, lemma_split_concat, lemma_split_nonempty, lemma_split_once_concat,
    lemma_split_without_separator,
};
use crate::btrfs_objects::subvolume_snapshot::{SubvolumeSnapshot, SubvolumeSnapshotView};
use crate::error::AppError;
use crate::globals::{GROUPS_DIRECTORY_NAME, TOP_DIRECTORY_NAME};
use crate::paths::{path_eq, same_path};
use crate::text::{
    first_where, lemma_first_where, lemma_first_where_none, join_spec, join_strings, split_char,
    split_once_spec, split_spec, starts_with, str_eq, views,
};

verus! {

/// What the manager records.
pub struct BtrfsManagerView {
    pub device: Seq<char>,
    /// Paths of the subvolumes found on the partition, outside the
    /// application's own directory.
    pub subvolumes: Seq<Seq<char>>,
    pub schedule: AutoSnapshotSchedule,
    pub first_time_launch: bool,
    pub groups: Seq<GroupView>,
    /// Snapshots under the application's directory whose group, type,
    /// date and time, or subvolume could not be determined.
    pub broken_snapshots: Seq<SubvolumeSnapshotView>,
}

/// What every method of `BtrfsManager` that takes it by `&mut` keeps: the
/// device, the schedule of automatic snapshots and whether the
/// configuration is that of a first launch.
pub open spec fn manager_step(before: BtrfsManagerView, after: BtrfsManagerView) -> bool {
    &&& after.device == before.device
    &&& after.schedule == before.schedule
    &&& after.first_time_launch == before.first_time_launch
}

/// The views of a sequence of subvolume snapshots.
pub open spec fn snapshot_views(s: Seq<SubvolumeSnapshot>) -> Seq<SubvolumeSnapshotView> {
    s.map_values(|x: SubvolumeSnapshot| x@)
}

/// The test "group `i` is named `name`".
pub open spec fn is_named(groups: Seq<GroupView>, name: Seq<char>) -> spec_fn(int) -> bool {
    |i: int| groups[i].name == name
}

/// The test "subvolume `i` is at the same path as `p`".
pub open spec fn is_at(subvolumes: Seq<Seq<char>>, p: Seq<char>) -> spec_fn(int) -> bool {
    |i: int| same_path(subvolumes[i], p)
}

/// The parts of a snapshot path after the application's top directory:
/// groups directory, group name, type, `<date>_<time>`, then the path of
/// the related subvolume.
pub open spec fn snapshot_parts(raw: Seq<char>) -> Seq<Seq<char>> {
    split_spec(raw, '/').skip(1)
}

/// The path of the related subvolume in the parts of a snapshot path: all
/// parts after the `<date>_<time>` folder, joined by `/`.
pub open spec fn related_path(parts: Seq<Seq<char>>) -> Seq<char> {
    join_spec(parts.skip(4), "/"@)
}

/// The group (by index) and the subvolume (by index) a snapshot path
/// belongs to: it lies in the groups directory, under the folder of the
/// first group with that name, and its remaining path is that of a
/// subvolume (the first with that path).
pub open spec fn snapshot_location(
    raw: Seq<char>,
    groups: Seq<GroupView>,
    subvolumes: Seq<Seq<char>>,
) -> Option<(int, int)> {
    let parts = snapshot_parts(raw);
    if parts.len() >= 4 && parts[0] == GROUPS_DIRECTORY_NAME@ {
        match (
            first_where(groups.len() as int, is_named(groups, parts[1])),
            first_where(subvolumes.len() as int, is_at(subvolumes, related_path(parts))),
        ) {
            (Some(g), Some(k)) => Some((g, k)),
            _ => None,
        }
    } else {
        None
    }
}

/// The groups and broken snapshots once the snapshot at `raw` is placed:
/// recorded in its group where its location, type and folder are
/// understood, and otherwise kept as broken, with its subvolume where that
/// is known.
pub open spec fn parse_step(
    groups: Seq<GroupView>,
    broken: Seq<SubvolumeSnapshotView>,
    raw: Seq<char>,
    subvolumes: Seq<Seq<char>>,
) -> (Seq<GroupView>, Seq<SubvolumeSnapshotView>) {
    match snapshot_location(raw, groups, subvolumes) {
        Some((g, k)) => {
            let parts = snapshot_parts(raw);
            match (SnapshotType::from_name_spec(parts[2]), split_once_spec(parts[3], '_')) {
                (Some(t), Some((d, tm))) => (
                    groups.update(g, with_snapshot(groups[g], raw, d, tm, t, subvolumes[k])),
                    broken,
                ),
                _ => (
                    groups,
                    broken.push(SubvolumeSnapshotView { path: raw, related_subvolume: Some(subvolumes[k]) }),
                ),
            }
        },
        None => (groups, broken.push(SubvolumeSnapshotView { path: raw, related_subvolume: None })),
    }
}

/// The path lies in the application's top directory on the partition.
pub open spec fn is_snapshot_path(p: Seq<char>) -> bool {
    TOP_DIRECTORY_NAME@.is_prefix_of(p)
}

/// The listed paths that lie in the application's top directory, in order.
pub open spec fn snapshot_paths_spec(listed: Seq<Seq<char>>) -> Seq<Seq<char>>
    decreases listed.len(),
{
    if listed.len() == 0 {
        Seq::<Seq<char>>::empty()
    } else if is_snapshot_path(listed.last()) {
        snapshot_paths_spec(listed.drop_last()).push(listed.last())
    } else {
        snapshot_paths_spec(listed.drop_last())
    }
}

/// The listed paths that lie outside the application's top directory, in order.
pub open spec fn subvolume_paths_spec(listed: Seq<Seq<char>>) -> Seq<Seq<char>>
    decreases listed.len(),
{
    if listed.len() == 0 {
        Seq::<Seq<char>>::empty()
    } else if !is_snapshot_path(listed.last()) {
        subvolume_paths_spec(listed.drop_last()).push(listed.last())
    } else {
        subvolume_paths_spec(listed.drop_last())
    }
}

/// The subvolume paths of all groups, group after group.
pub open spec fn all_subvolumes(groups: Seq<GroupView>) -> Seq<Seq<char>>
    decreases groups.len(),
{
    if groups.len() == 0 {
        Seq::<Seq<char>>::empty()
    } else {
        all_subvolumes(groups.drop_last()) + groups.last().subvolumes
    }
}

/// The subvolume paths of the groups that are not among `subvolumes`,
/// counted with their multiplicity.
pub open spec fn missing_subvolumes(groups: Seq<GroupView>, subvolumes: Seq<Seq<char>>) -> Multiset<Seq<char>> {
    all_subvolumes(groups).to_multiset().filter(unlisted_in(subvolumes))
}

/// The groups with their subvolumes checked against `subvolumes` one group
/// after the other, as `Group::verify_subvolumes` checks them, and the
/// paths removed, appended to `removed`.
pub open spec fn verify_all(
    groups: Seq<GroupView>,
    subvolumes: Seq<Seq<char>>,
    removed: Seq<Seq<char>>,
) -> (Seq<GroupView>, Seq<Seq<char>>)
    decreases groups.len(),
{
    if groups.len() == 0 {
        (groups, removed)
    } else {
        let (gs, r) = verify_all(groups.drop_last(), subvolumes, removed);
        let g = groups.last();
        let (kept, r2) = swap_remove_unlisted(g.subvolumes, 0, r, subvolumes);
        (gs.push(GroupView { subvolumes: kept, ..g }), r2)
    }
}

/// `after` is `before` with the subvolumes of each group checked against
/// `subvolumes`: names and snapshots stay, and each group keeps exactly
/// its subvolumes that are listed, in some order.
pub open spec fn verified_groups(
    before: Seq<GroupView>,
    after: Seq<GroupView>,
    subvolumes: Seq<Seq<char>>,
) -> bool {
    &&& after.len() == before.len()
    &&& forall|i: int|
        0 <= i < before.len() ==> {
            &&& (#[trigger] after[i]).name == before[i].name
            &&& after[i].snapshots == before[i].snapshots
            &&& after[i].subvolumes.to_multiset() == before[i].subvolumes.to_multiset().filter(
                listed_in(subvolumes),
            )
        }
}

/// The groups and broken snapshots once every snapshot path of `raws` is
/// placed, one after the other.
pub open spec fn parse_all(
    groups: Seq<GroupView>,
    broken: Seq<SubvolumeSnapshotView>,
    raws: Seq<Seq<char>>,
    subvolumes: Seq<Seq<char>>,
) -> (Seq<GroupView>, Seq<SubvolumeSnapshotView>)
    decreases raws.len(),
{
    if raws.len() == 0 {
        (groups, broken)
    } else {
        let (g, b) = parse_all(groups, broken, raws.drop_last(), subvolumes);
        parse_step(g, b, raws.last(), subvolumes)
    }
}

/// The text that comes before the path on a line of `btrfs subvolume list`.
pub open spec fn path_marker() -> Seq<char> {
    "top level 5 path "@
}

/// The marker starts at position `k` of `line`, after the leading `ID`,
/// and at least one character follows it.
pub open spec fn marker_at(line: Seq<char>, k: int) -> bool {
    &&& 2 <= k
    &&& k + path_marker().len() < line.len()
    &&& line.subrange(k, k + path_marker().len()) == path_marker()
}

/// The path that the pattern `^ID.*top level 5 path (.+)$` captures on one
/// line: on a line starting with `ID`, the rest of the line after the last
/// marker that is followed by at least one character (`.*` is greedy and
/// `.` matches anything but a line break).
pub open spec fn listed_path_of_line(line: Seq<char>) -> Option<Seq<char>> {
    if "ID"@.is_prefix_of(line) && exists|k: int|
        #[trigger] marker_at(line, k) && forall|j: int| #[trigger] marker_at(line, j) ==> j <= k {
        let k = choose|k: int|
            #[trigger] marker_at(line, k) && forall|j: int| #[trigger] marker_at(line, j) ==> j <= k;
        Some(line.skip(k + path_marker().len()))
    } else {
        None
    }
}

/// The paths captured on `lines`, line after line.
pub open spec fn listed_paths_of_lines(lines: Seq<Seq<char>>) -> Seq<Seq<char>>
    decreases lines.len(),
{
    if lines.len() == 0 {
        Seq::<Seq<char>>::empty()
    } else {
        match listed_path_of_line(lines.last()) {
            Some(p) => listed_paths_of_lines(lines.drop_last()).push(p),
            None => listed_paths_of_lines(lines.drop_last()),
        }
    }
}

/// The paths that `btrfs subvolume list` reports in `output`, as the
/// multi-line pattern `(?m)^ID.*top level 5 path (.+)$` captures them: one
/// per matching line, in order.
pub open spec fn listed_subvolume_paths(output: Seq<char>) -> Seq<Seq<char>> {
    listed_paths_of_lines(split_spec(output, '\n'))
}

/// `regex::Regex::new(r"(?m)^ID.*top level 5 path (.+)$")` and
/// `Regex::captures_iter` on `btrfs_output`: the captured paths, in order.
/// `Regex::new` fails only on a pattern that is not valid syntax or whose
/// compiled form exceeds the size limit (10 MiB by default); this pattern is
/// a fixed, valid literal far below that limit, so the contract claims that
/// it compiles. It claims the captures that the pattern's meaning gives: line
/// by line, the rest of each line that starts with `ID` after its last
/// `top level 5 path ` marker.
#[verifier::external_body]
fn capture_listed_paths(btrfs_output: &str) -> (r: Result<Vec<String>, regex::Error>)
    ensures
        r is Ok,
        r matches Ok(v) ==> views(v@) == listed_subvolume_paths(btrfs_output@),
{
    let re = regex::Regex::new(r"(?m)^ID.*top level 5 path (.+)$")?;
    Ok(re.captures_iter(btrfs_output).map(|c| c.extract::<1>().1[0].to_string()).collect())
}

/// `after` and `r` are what registering the `listed` paths on `before`
/// gives: the paths outside the application's top directory are added to
/// the subvolumes; each group keeps its subvolumes found among them, as
/// `Group::verify_subvolumes` keeps them; if some are missing, that is the
/// error, listing them, and no snapshot is placed; otherwise every snapshot
/// path is placed in order.
pub open spec fn registered(
    before: BtrfsManagerView,
    after: BtrfsManagerView,
    listed: Seq<Seq<char>>,
    r: Result<(), AppError>,
) -> bool {
    let subs = before.subvolumes + subvolume_paths_spec(listed);
    let raws = snapshot_paths_spec(listed);
    let (vg, missing) = verify_all(before.groups, subs, Seq::empty());
    &&& after.subvolumes == subs
    &&& after.device == before.device
    &&& after.schedule == before.schedule
    &&& after.first_time_launch == before.first_time_launch
    &&& missing.len() > 0 ==> after.groups == vg && after.broken_snapshots == before.broken_snapshots
        && (r matches Err(AppError::ConfigErrSubvolumeNotExist(removed)) && views(removed@) == missing)
    &&& missing.len() == 0 ==> r is Ok && (after.groups, after.broken_snapshots) == parse_all(
        vg,
        before.broken_snapshots,
        raws,
        subs,
    )
}

/// Manages the snapshots of one btrfs partition.
pub struct BtrfsManager {
    _device: String,
    subvolumes: Vec<String>,
    app_config: AppConfig,
    broken_snapshots: Vec<SubvolumeSnapshot>,
}

impl View for BtrfsManager {
    type V = BtrfsManagerView;

    closed spec fn view(&self) -> BtrfsManagerView {
        BtrfsManagerView {
            device: self._device@,
            subvolumes: views(self.subvolumes@),
            schedule: self.app_config.schedule,
            first_time_launch: self.app_config.first_time_launch,
            groups: group_views(self.app_config.groups@),
            broken_snapshots: snapshot_views(self.broken_snapshots@),
        }
    }
}

impl BtrfsManager {
    /// A manager of the partition on `device` with configuration
    /// `app_config`, before its subvolumes are listed.
    pub fn new(device: String, app_config: AppConfig) -> (r: Self)
        ensures
            r@ == (BtrfsManagerView {
                device: device@,
                subvolumes: Seq::empty(),
                schedule: app_config.schedule,
                first_time_launch: app_config.first_time_launch,
                groups: group_views(app_config.groups@),
                broken_snapshots: Seq::empty(),
            }),
    {
        let r = BtrfsManager {
            _device: device,
            subvolumes: Vec::new(),
            app_config,
            broken_snapshots: Vec::new(),
        };
        assert(views(r.subvolumes@) =~= Seq::empty());
        assert(snapshot_views(r.broken_snapshots@) =~= Seq::empty());
        r
    }

    /// Places the snapshot at `raw_path` (below the mount point, starting
    /// with the application's top directory): into the group snapshot of
    /// its group, type, date and time, or among the broken snapshots.
    pub fn parse_snapshot_path(&mut self, raw_path: &str)
        ensures
            manager_step(old(self)@, final(self)@),
            ({
                let (groups, broken) = parse_step(
                    old(self)@.groups,
                    old(self)@.broken_snapshots,
                    raw_path@,
                    old(self)@.subvolumes,
                );
                final(self)@ == (BtrfsManagerView {
                    groups,
                    broken_snapshots: broken,
                    ..old(self)@
                })
            }),
    {
        let ghost old_view = self@;
        let mut parts = split_char(raw_path, '/');
        let ghost parts_view = views(parts@);
        proof {
            reveal_strlit("/");
            assert("/"@ =~= seq!['/']);
            crate::text::lemma_split_nonempty(raw_path@, '/');
        }
        if parts.len() >= 5 && str_eq(parts[1].as_str(), GROUPS_DIRECTORY_NAME) {
            let ghost sp = snapshot_parts(raw_path@);
            assert(sp =~= parts_view.skip(1));
            assert(sp[0] == parts@[1]@);
            assert(sp[1] == parts@[2]@);
            assert(sp[2] == parts@[3]@);
            assert(sp[3] == parts@[4]@);
            let tail = parts.split_off(5);
            assert(views(tail@) =~= sp.skip(4));
            let related = join_strings(tail.as_slice(), "/");
            assert(related@ == related_path(sp));
            let ghost gviews = group_views(self.app_config.groups@);
            // the first group with the name
            let ng = self.app_config.groups.len();
            let mut g: usize = 0;
            while g < ng
                invariant
                    ng == self.app_config.groups@.len(),
                    g <= ng,
                    gviews == group_views(self.app_config.groups@),
                    forall|j: int| 0 <= j < g ==> !#[trigger] is_named(gviews, sp[1])(j),
                    parts@.len() == 5,
                    sp[1] == parts@[2]@,
                ensures
                    g <= ng,
                    g < ng ==> is_named(gviews, sp[1])(g as int),
                    forall|j: int| 0 <= j < g ==> !#[trigger] is_named(gviews, sp[1])(j),
                decreases ng - g,
            {
                if self.app_config.groups[g].eq(parts[2].as_str()) {
                    break;
                }
                g = g + 1;
            }
            // the first subvolume at the related path
            let ghost sviews = views(self.subvolumes@);
            let ns = self.subvolumes.len();
            let mut k: usize = 0;
            while k < ns
                invariant
                    ns == self.subvolumes@.len(),
                    k <= ns,
                    sviews == views(self.subvolumes@),
                    related@ == related_path(sp),
                    forall|j: int| 0 <= j < k ==> !#[trigger] is_at(sviews, related_path(sp))(j),
                ensures
                    k <= ns,
                    k < ns ==> is_at(sviews, related_path(sp))(k as int),
                    forall|j: int| 0 <= j < k ==> !#[trigger] is_at(sviews, related_path(sp))(j),
                decreases ns - k,
            {
                if path_eq(self.subvolumes[k].as_str(), related.as_str()) {
                    assert(sviews[k as int] == self.subvolumes@[k as int]@);
                    break;
                }
                k = k + 1;
            }
            if g < ng && k < ns {
                proof {
                    lemma_first_where(ng as int, is_named(gviews, sp[1]), g as int);
                    lemma_first_where(ns as int, is_at(sviews, related_path(sp)), k as int);
                    assert(snapshot_location(raw_path@, gviews, sviews) == Some((g as int, k as int)));
                }
                let subvol = self.subvolumes[k].clone();
                let mut group = self.app_config.groups.remove(g);
                let added = group.add_snapshot(raw_path, parts[3].as_str(), parts[4].as_str(), subvol.clone());
                self.app_config.groups.insert(g, group);
                assert(group_views(self.app_config.groups@) =~= gviews.update(g as int, group@));
                if !added {
                    let ghost before = snapshot_views(self.broken_snapshots@);
                    let s = SubvolumeSnapshot::new(String::from_str(raw_path), Some(subvol));
                    self.broken_snapshots.push(s);
                    assert(snapshot_views(self.broken_snapshots@) =~= before.push(s@));
                    assert(gviews.update(g as int, group@) =~= gviews);
                }
                return;
            } else {
                proof {
                    if g >= ng {
                        lemma_first_where_none(ng as int, is_named(gviews, sp[1]));
                    } else {
                        lemma_first_where_none(ns as int, is_at(sviews, related_path(sp)));
                    }
                    assert(snapshot_location(raw_path@, gviews, sviews) is None);
                }
            }
        } else {
            proof {
                let sp = snapshot_parts(raw_path@);
                assert(sp =~= parts_view.skip(1));
                if parts@.len() >= 5 {
                    assert(sp[0] == parts@[1]@);
                }
                assert(snapshot_location(raw_path@, old_view.groups, old_view.subvolumes) is None);
            }
        }
        let ghost before = snapshot_views(self.broken_snapshots@);
        let s = SubvolumeSnapshot::new(String::from_str(raw_path), None);
        self.broken_snapshots.push(s);
        assert(snapshot_views(self.broken_snapshots@) =~= before.push(s@));
    }

    /// Adds the listed paths outside the application's top directory to the
    /// subvolumes, in order, and returns the others, the snapshot paths.
    pub fn record_listed_paths(&mut self, listed: &[String]) -> (r: Vec<String>)
        ensures
            manager_step(old(self)@, final(self)@),
            final(self)@ == (BtrfsManagerView {
                subvolumes: old(self)@.subvolumes + subvolume_paths_spec(views(listed@)),
                ..old(self)@
            }),
            views(r@) == snapshot_paths_spec(views(listed@)),
    {
        let mut snaps: Vec<String> = Vec::new();
        let n = listed.len();
        let mut i: usize = 0;
        let ghost s0 = views(self.subvolumes@);
        assert(views(listed@).take(0) =~= Seq::<Seq<char>>::empty());
        assert(views(snaps@) =~= Seq::<Seq<char>>::empty());
        assert(s0 + Seq::<Seq<char>>::empty() =~= s0);
        while i < n
            invariant
                n == listed@.len(),
                i <= n,
                self._device == old(self)._device,
                self.app_config == old(self).app_config,
                self.broken_snapshots == old(self).broken_snapshots,
                s0 == old(self)@.subvolumes,
                views(snaps@) == snapshot_paths_spec(views(listed@).take(i as int)),
                views(self.subvolumes@) == s0 + subvolume_paths_spec(views(listed@).take(i as int)),
            decreases n - i,
        {
            let p = &listed[i];
            let ghost before_snaps = views(snaps@);
            let ghost before_subs = views(self.subvolumes@);
            proof {
                assert(views(listed@).take(i + 1).drop_last() =~= views(listed@).take(i as int));
                assert(views(listed@).take(i + 1).last() == p@);
            }
            if starts_with(p.as_str(), TOP_DIRECTORY_NAME) {
                snaps.push(p.clone());
                assert(views(snaps@) =~= before_snaps.push(p@));
            } else {
                self.subvolumes.push(p.clone());
                assert(views(self.subvolumes@) =~= before_subs.push(p@));
                assert(s0 + subvolume_paths_spec(views(listed@).take(i + 1)) =~= (s0
                    + subvolume_paths_spec(views(listed@).take(i as int))).push(p@));
            }
            i = i + 1;
        }
        assert(views(listed@).take(n as int) =~= views(listed@));
        snaps
    }

    /// Checks the subvolumes of every group against the subvolumes found on
    /// the partition, as `Group::verify_subvolumes` does, and returns the
    /// ones not found.
    pub fn verify_config_subvolumes(&mut self) -> (removed: Vec<String>)
        ensures
            manager_step(old(self)@, final(self)@),
            verified_groups(old(self)@.groups, final(self)@.groups, old(self)@.subvolumes),
            final(self)@ == (BtrfsManagerView { groups: final(self)@.groups, ..old(self)@ }),
            views(removed@).to_multiset() == missing_subvolumes(old(self)@.groups, old(self)@.subvolumes),
            (final(self)@.groups, views(removed@)) == verify_all(
                old(self)@.groups,
                old(self)@.subvolumes,
                Seq::empty(),
            ),
    {
        broadcast use vstd::multiset::group_multiset_axioms;

        let mut removed: Vec<String> = Vec::new();
        let ghost g0 = group_views(self.app_config.groups@);
        let ghost subs = views(self.subvolumes@);
        let n = self.app_config.groups.len();
        let mut i: usize = 0;
        assert(g0.take(0) =~= Seq::<GroupView>::empty());
        assert(views(removed@) =~= Seq::<Seq<char>>::empty());
        assert(all_subvolumes(g0.take(0)) =~= Seq::<Seq<char>>::empty());
        assert forall|x: Seq<char>| #[trigger] views(removed@).to_multiset().count(x) == all_subvolumes(g0.take(0)).to_multiset().filter(
            unlisted_in(subs),
        ).count(x) by {
            vstd::seq_lib::to_multiset_contains(views(removed@), x);
            vstd::seq_lib::to_multiset_contains(all_subvolumes(g0.take(0)), x);
        }
        assert(views(removed@).to_multiset() =~= all_subvolumes(g0.take(0)).to_multiset().filter(
            unlisted_in(subs),
        ));
        assert(group_views(self.app_config.groups@).take(0) =~= Seq::<GroupView>::empty());
        while i < n
            invariant
                n == self.app_config.groups@.len(),
                n == g0.len(),
                i <= n,
                g0 == old(self)@.groups,
                subs == old(self)@.subvolumes,
                self._device == old(self)._device,
                self.subvolumes == old(self).subvolumes,
                self.broken_snapshots == old(self).broken_snapshots,
                self.app_config.schedule == old(self).app_config.schedule,
                self.app_config.first_time_launch == old(self).app_config.first_time_launch,
                forall|j: int|
                    0 <= j < i ==> {
                        &&& (#[trigger] group_views(self.app_config.groups@)[j]).name == g0[j].name
                        &&& group_views(self.app_config.groups@)[j].snapshots == g0[j].snapshots
                        &&& group_views(self.app_config.groups@)[j].subvolumes.to_multiset()
                            == g0[j].subvolumes.to_multiset().filter(listed_in(subs))
                    },
                forall|j: int| i <= j < n ==> #[trigger] group_views(self.app_config.groups@)[j] == g0[j],
                views(removed@).to_multiset() == all_subvolumes(g0.take(i as int)).to_multiset().filter(
                    unlisted_in(subs),
                ),
                (group_views(self.app_config.groups@).take(i as int), views(removed@)) == verify_all(
                    g0.take(i as int),
                    subs,
                    Seq::empty(),
                ),
            decreases n - i,
        {
            let ghost before = group_views(self.app_config.groups@);
            let ghost rem_before = views(removed@);
            assert(before[i as int] == self.app_config.groups@[i as int]@);
            let mut g = self.app_config.groups.remove(i);
            assert(g@ == g0[i as int]);
            g.verify_subvolumes(self.subvolumes.as_slice(), &mut removed);
            let ghost gv = g@;
            self.app_config.groups.insert(i, g);
            proof {
                assert(group_views(self.app_config.groups@) =~= before.update(i as int, gv));
                let added = views(removed@).skip(rem_before.len() as int);
                assert(views(removed@) =~= rem_before + added);
                vstd::seq_lib::lemma_multiset_commutative(rem_before, added);
                assert(g0.take(i + 1).drop_last() =~= g0.take(i as int));
                assert(all_subvolumes(g0.take(i + 1)) == all_subvolumes(g0.take(i as int))
                    + g0[i as int].subvolumes);
                vstd::seq_lib::lemma_multiset_commutative(
                    all_subvolumes(g0.take(i as int)),
                    g0[i as int].subvolumes,
                );
                assert(views(removed@).to_multiset() =~= all_subvolumes(g0.take(i + 1)).to_multiset().filter(
                    unlisted_in(subs),
                ));
                assert(group_views(self.app_config.groups@).take(i + 1) =~= before.take(i as int).push(gv));
            }
            i = i + 1;
        }
        assert(g0.take(n as int) =~= g0);
        assert(group_views(self.app_config.groups@).take(n as int) =~= group_views(self.app_config.groups@));
        removed
    }

    /// Places every snapshot path of `raws`, one after the other, as
    /// `parse_snapshot_path` does.
    pub fn parse_snapshot_paths(&mut self, raws: &[String])
        ensures
            manager_step(old(self)@, final(self)@),
            ({
                let (groups, broken) = parse_all(
                    old(self)@.groups,
                    old(self)@.broken_snapshots,
                    views(raws@),
                    old(self)@.subvolumes,
                );
                final(self)@ == (BtrfsManagerView {
                    groups,
                    broken_snapshots: broken,
                    ..old(self)@
                })
            }),
    {
        let n = raws.len();
        let mut i: usize = 0;
        assert(views(raws@).take(0) =~= Seq::<Seq<char>>::empty());
        while i < n
            invariant
                n == raws@.len(),
                i <= n,
                ({
                    let (groups, broken) = parse_all(
                        old(self)@.groups,
                        old(self)@.broken_snapshots,
                        views(raws@).take(i as int),
                        old(self)@.subvolumes,
                    );
                    self@ == (BtrfsManagerView {
                        groups,
                        broken_snapshots: broken,
                        ..old(self)@
                    })
                }),
            decreases n - i,
        {
            proof {
                assert(views(raws@).take(i + 1).drop_last() =~= views(raws@).take(i as int));
                assert(views(raws@).take(i + 1).last() == raws@[i as int]@);
            }
            self.parse_snapshot_path(raws[i].as_str());
            i = i + 1;
        }
        assert(views(raws@).take(n as int) =~= views(raws@));
    }

    /// Takes in the paths that `btrfs subvolume list` reported: the ones
    /// outside the application's top directory become subvolumes; the
    /// subvolumes of every group are checked against them, and any not found
    /// is an error; otherwise every snapshot path is placed.
    pub fn register_listed_paths(&mut self, listed: &[String]) -> (r: Result<(), AppError>)
        ensures
            manager_step(old(self)@, final(self)@),
            registered(old(self)@, final(self)@, views(listed@), r),
    {
        broadcast use vstd::seq_lib::group_to_multiset_ensures;

        let snaps = self.record_listed_paths(listed);
        let removed = self.verify_config_subvolumes();
        let ghost vg = self@.groups;
        if removed.len() > 0 {
            assert(views(removed@).len() > 0);
            return Err(AppError::ConfigErrSubvolumeNotExist(removed));
        }
        assert(views(removed@).len() == 0);
        self.parse_snapshot_paths(snaps.as_slice());
        Ok(())
    }

    /// Takes in the output of `btrfs subvolume list -o <mount point>`: its
    /// listed paths are registered as `register_listed_paths` does.
    pub fn get_subvolumes_and_snapshots(&mut self, btrfs_output: &str) -> (r: Result<(), AppError>)
        ensures
            manager_step(old(self)@, final(self)@),
            registered(old(self)@, final(self)@, listed_subvolume_paths(btrfs_output@), r),
    {
        let listed = match capture_listed_paths(btrfs_output) {
            Ok(v) => v,
            Err(e) => return Err(AppError::Regex(e)),
        };
        self.register_listed_paths(listed.as_slice())
    }

    /// The configured groups.
    pub fn get_groups(&self) -> (r: &[Group])
        ensures
            group_views(r@) == self@.groups,
    {
        self.app_config.groups.as_slice()
    }

    /// Paths of the subvolumes found on the partition.
    pub fn get_subvolumes(&self) -> (r: &[String])
        ensures
            views(r@) == self@.subvolumes,
    {
        self.subvolumes.as_slice()
    }

    /// The snapshots that could not be placed in a group.
    pub fn get_broken_snapshots(&self) -> (r: &[SubvolumeSnapshot])
        ensures
            snapshot_views(r@) == self@.broken_snapshots,
    {
        self.broken_snapshots.as_slice()
    }

    /// The configuration, as it is to be written back.
    pub fn get_app_config(&self) -> (r: &AppConfig)
        ensures
            r.schedule == self@.schedule,
            r.first_time_launch == self@.first_time_launch,
            group_views(r.groups@) == self@.groups,
    {
        &self.app_config
    }

    /// Renames the group at `index` to `new_name`, as `AppConfig::rename_group` does.
    pub fn rename_group(&mut self, index: usize, new_name: String) -> (r: Result<
        Vec<Vec<Result<SnapshotMove, AppError>>>,
        AppError,
    >)
        ensures
            manager_step(old(self)@, final(self)@),
            index >= old(self)@.groups.len() ==> final(self)@ == old(self)@,
            index >= old(self)@.groups.len() ==> (r matches Err(AppError::Bug(m)) && m@
                == invalid_index_message(index as nat, "renaming group"@)),
            index < old(self)@.groups.len() ==> renamed_at(
                old(self)@.groups,
                final(self)@.groups,
                index as int,
                new_name@,
            ) && final(self)@ == (BtrfsManagerView { groups: final(self)@.groups, ..old(self)@ }),
            index < old(self)@.groups.len() ==> (r matches Ok(plan) && rename_plan(
                old(self)@.groups[index as int],
                new_name@,
                plan@,
            )),
    {
        let r = self.app_config.rename_group(index, new_name);
        proof {
            if index < old(self)@.groups.len() {
                assert(old(self).app_config.groups@[index as int]@ == old(self)@.groups[index as int]);
            }
        }
        r
    }

    /// Adds the subvolume at `subvol_index` to the group at `group_index`;
    /// an invalid subvolume index, then an invalid group index, is an
    /// internal error.
    pub fn add_subvol_to_group(&mut self, group_index: usize, subvol_index: usize) -> (r: Result<(), AppError>)
        ensures
            manager_step(old(self)@, final(self)@),
            subvol_index >= old(self)@.subvolumes.len() ==> final(self)@ == old(self)@ && (r matches Err(
                AppError::Bug(m),
            ) && m@ == invalid_index_message(
                subvol_index as nat,
                "add subvolume to group(invalid subvolume index)"@,
            )),
            subvol_index < old(self)@.subvolumes.len() && group_index >= old(self)@.groups.len()
                ==> final(self)@ == old(self)@ && (r matches Err(AppError::Bug(m)) && m@
                == invalid_index_message(group_index as nat, "add subvolume to group(invalid group index)"@)),
            subvol_index < old(self)@.subvolumes.len() && group_index < old(self)@.groups.len() ==> r is Ok
                && final(self)@ == (BtrfsManagerView {
                groups: old(self)@.groups.update(
                    group_index as int,
                    GroupView {
                        subvolumes: old(self)@.groups[group_index as int].subvolumes.push(
                            old(self)@.subvolumes[subvol_index as int],
                        ),
                        ..old(self)@.groups[group_index as int]
                    },
                ),
                ..old(self)@
            }),
    {
        if subvol_index >= self.subvolumes.len() {
            return throw_invalid_index(subvol_index, "add subvolume to group(invalid subvolume index)");
        }
        if group_index >= self.app_config.groups.len() {
            return throw_invalid_index(group_index, "add subvolume to group(invalid group index)");
        }
        let ghost before = group_views(self.app_config.groups@);
        assert(before[group_index as int] == self.app_config.groups@[group_index as int]@);
        assert(views(self.subvolumes@)[subvol_index as int] == self.subvolumes@[subvol_index as int]@);
        let mut g = self.app_config.groups.remove(group_index);
        g.add_subvolume(self.subvolumes[subvol_index].as_str());
        let ghost gv = g@;
        self.app_config.groups.insert(group_index, g);
        assert(group_views(self.app_config.groups@) =~= before.update(group_index as int, gv));
        Ok(())
    }

    /// Takes the group snapshot at `snapshot_index` out of the group at
    /// `group_index`, as `Group::delete_snapshot` does; an invalid group
    /// index is an internal error.
    pub fn delete_snapshot(&mut self, group_index: usize, snapshot_index: usize) -> (r: Result<GroupSnapshot, AppError>)
        ensures
            manager_step(old(self)@, final(self)@),
            group_index >= old(self)@.groups.len() ==> final(self)@ == old(self)@ && (r matches Err(
                AppError::Bug(m),
            ) && m@ == invalid_index_message(
                group_index as nat,
                "deleting snapshot(invalid group index)"@,
            )),
            group_index < old(self)@.groups.len() ==> ({
                let g = old(self)@.groups[group_index as int];
                &&& snapshot_index < g.snapshots.len() ==> (r matches Ok(gs) && gs@ == g.snapshots[snapshot_index as int])
                    && final(self)@ == (BtrfsManagerView {
                    groups: old(self)@.groups.update(
                        group_index as int,
                        GroupView { snapshots: g.snapshots.remove(snapshot_index as int), ..g },
                    ),
                    ..old(self)@
                })
                &&& snapshot_index >= g.snapshots.len() ==> final(self)@ == old(self)@ && (r matches Err(
                    AppError::Bug(m),
                ) && m@ == invalid_index_message(snapshot_index as nat, "deleting snapshot"@))
            }),
    {
        if group_index >= self.app_config.groups.len() {
            return throw_invalid_index(group_index, "deleting snapshot(invalid group index)");
        }
        let ghost before = group_views(self.app_config.groups@);
        assert(before[group_index as int] == self.app_config.groups@[group_index as int]@);
        let mut g = self.app_config.groups.remove(group_index);
        let r = g.delete_snapshot(snapshot_index);
        let ghost gv = g@;
        self.app_config.groups.insert(group_index, g);
        assert(group_views(self.app_config.groups@) =~= before.update(group_index as int, gv));
        proof {
            if snapshot_index >= before[group_index as int].snapshots.len() {
                assert(before.update(group_index as int, gv) =~= before);
            }
        }
        r
    }
}

/// No group holds two group snapshots with the same date, time and type.
pub open spec fn all_keys_unique(groups: Seq<GroupView>) -> bool {
    forall|i: int| 0 <= i < groups.len() ==> keys_unique(#[trigger] groups[i].snapshots)
}

/// How many subvolume snapshots all groups hold together.
pub open spec fn recorded_count(groups: Seq<GroupView>) -> nat
    decreases groups.len(),
{
    if groups.len() == 0 {
        0
    } else {
        recorded_count(groups.drop_last()) + snapshot_count(groups.last().snapshots)
    }
}

/// Replacing one group changes the count by the difference.
pub proof fn lemma_recorded_count_update(groups: Seq<GroupView>, k: int, x: GroupView)
    requires
        0 <= k < groups.len(),
    ensures
        recorded_count(groups.update(k, x)) + snapshot_count(groups[k].snapshots) == recorded_count(groups)
            + snapshot_count(x.snapshots),
    decreases groups.len(),
{
    if k == groups.len() - 1 {
        assert(groups.update(k, x).drop_last() =~= groups.drop_last());
    } else {
        lemma_recorded_count_update(groups.drop_last(), k, x);
        assert(groups.update(k, x).drop_last() =~= groups.drop_last().update(k, x));
    }
}

/// Placing a snapshot path keeps the keys of every group's snapshots
/// distinct.
pub proof fn lemma_parse_step_keeps_keys_unique(
    groups: Seq<GroupView>,
    broken: Seq<SubvolumeSnapshotView>,
    raw: Seq<char>,
    subvolumes: Seq<Seq<char>>,
)
    requires
        all_keys_unique(groups),
    ensures
        all_keys_unique(parse_step(groups, broken, raw, subvolumes).0),
{
    match snapshot_location(raw, groups, subvolumes) {
        Some((g, k)) => {
            let parts = snapshot_parts(raw);
            match (SnapshotType::from_name_spec(parts[2]), split_once_spec(parts[3], '_')) {
                (Some(t), Some((d, tm))) => {
                    lemma_add_snapshot_keeps_keys_unique(groups[g], raw, d, tm, t, subvolumes[k]);
                    let after = parse_step(groups, broken, raw, subvolumes).0;
                    assert forall|i: int| 0 <= i < after.len() implies keys_unique(#[trigger] after[i].snapshots) by {
                        if i != g {
                            assert(after[i] == groups[i]);
                        }
                    }
                },
                _ => {},
            }
        },
        None => {},
    }
}

/// Placing any number of snapshot paths keeps the keys of every group's
/// snapshots distinct.
pub proof fn lemma_parse_all_keeps_keys_unique(
    groups: Seq<GroupView>,
    broken: Seq<SubvolumeSnapshotView>,
    raws: Seq<Seq<char>>,
    subvolumes: Seq<Seq<char>>,
)
    requires
        all_keys_unique(groups),
    ensures
        all_keys_unique(parse_all(groups, broken, raws, subvolumes).0),
    decreases raws.len(),
{
    if raws.len() > 0 {
        lemma_parse_all_keeps_keys_unique(groups, broken, raws.drop_last(), subvolumes);
        let (g, b) = parse_all(groups, broken, raws.drop_last(), subvolumes);
        lemma_parse_step_keeps_keys_unique(g, b, raws.last(), subvolumes);
    }
}

/// Every snapshot path placed ends up in exactly one place: recorded in a
/// group snapshot or kept as broken.
pub proof fn lemma_parse_step_places_once(
    groups: Seq<GroupView>,
    broken: Seq<SubvolumeSnapshotView>,
    raw: Seq<char>,
    subvolumes: Seq<Seq<char>>,
)
    ensures
        ({
            let (g2, b2) = parse_step(groups, broken, raw, subvolumes);
            recorded_count(g2) + b2.len() == recorded_count(groups) + broken.len() + 1
        }),
{
    match snapshot_location(raw, groups, subvolumes) {
        Some((g, k)) => {
            let parts = snapshot_parts(raw);
            match (SnapshotType::from_name_spec(parts[2]), split_once_spec(parts[3], '_')) {
                (Some(t), Some((d, tm))) => {
                    let x = with_snapshot(groups[g], raw, d, tm, t, subvolumes[k]);
                    lemma_add_snapshot_counts_one(groups[g], raw, d, tm, t, subvolumes[k]);
                    lemma_recorded_count_update(groups, g, x);
                },
                _ => {},
            }
        },
        None => {},
    }
}

/// Placing `raws` records or keeps as broken each of them exactly once.
pub proof fn lemma_parse_all_places_each_once(
    groups: Seq<GroupView>,
    broken: Seq<SubvolumeSnapshotView>,
    raws: Seq<Seq<char>>,
    subvolumes: Seq<Seq<char>>,
)
    ensures
        ({
            let (g2, b2) = parse_all(groups, broken, raws, subvolumes);
            recorded_count(g2) + b2.len() == recorded_count(groups) + broken.len() + raws.len()
        }),
    decreases raws.len(),
{
    if raws.len() > 0 {
        lemma_parse_all_places_each_once(groups, broken, raws.drop_last(), subvolumes);
        let (g, b) = parse_all(groups, broken, raws.drop_last(), subvolumes);
        lemma_parse_step_places_once(g, b, raws.last(), subvolumes);
    }
}

/// No character of `s` is `c`.
pub open spec fn lacks(s: Seq<char>, c: char) -> bool {
    forall|i: int| 0 <= i < s.len() ==> s[i] != c
}

/// What renaming moves, the next listing finds under the new name: a
/// snapshot of subvolume `k` that lies in the folder that `gs` moves to
/// when its group is named like group `g` (`.../<name>/<type>/<date>_<time>/`)
/// is recorded by placing its path into group `g` (the first with that
/// name) under the date, time and type of `gs`, with subvolume `k` (the
/// first at its path) as its subvolume. Its full path is that path below the
/// mount point, where the move puts it. Names and the date and time must be
/// free of `/`, and the date free of `_`, for the folder to be read back.
#[verifier::rlimit(50)]
pub proof fn lemma_renamed_snapshot_found_again(
    groups: Seq<GroupView>,
    broken: Seq<SubvolumeSnapshotView>,
    subvolumes: Seq<Seq<char>>,
    g: int,
    gs: GroupSnapshotView,
    k: int,
)
    requires
        0 <= g < groups.len(),
        forall|j: int| 0 <= j < g ==> groups[j].name != groups[g].name,
        groups[g].name.len() > 0,
        lacks(groups[g].name, '/'),
        lacks(gs.date, '/'),
        lacks(gs.date, '_'),
        lacks(gs.time, '/'),
        0 <= k < subvolumes.len(),
        forall|j: int| 0 <= j < k ==> !same_path(subvolumes[j], subvolumes[k]),
        !(subvolumes[k].len() > 0 && subvolumes[k][0] == '/'),
    ensures
        ({
            let dir = gs.moved_path(group_path_spec(groups[g].name));
            let raw = path_join_spec(dir, subvolumes[k]);
            &&& parse_step(groups, broken, raw, subvolumes) == (
                groups.update(
                    g,
                    with_snapshot(groups[g], raw, gs.date, gs.time, gs.snapshot_type, subvolumes[k]),
                ),
                broken,
            )
            &&& path_join_spec(path_join_spec(MOUNT_POINT@, dir), subvolumes[k]) == path_join_spec(
                MOUNT_POINT@,
                raw,
            )
        }),
{
    reveal_strlit("tram_btrfs/");
    reveal_strlit("snapshot_groups");
    reveal_strlit("/run/tram_btrfs/");
    reveal_strlit("_");
    reveal_strlit("/");
    reveal_strlit("manually");
    reveal_strlit("daily");
    reveal_strlit("weekly");
    reveal_strlit("monthly");
    let name = groups[g].name;
    let t = gs.snapshot_type.name_spec();
    let folder = gs.folder_name();
    let rel = subvolumes[k];
    let top = crate::globals::TOP_DIRECTORY_NAME@;
    let grp = GROUPS_DIRECTORY_NAME@;
    let a = top.drop_last();
    assert(top =~= a.push('/'));
    assert(lacks(a, '/'));
    assert(lacks(grp, '/'));
    assert(grp.len() > 0 && grp[0] != '/' && grp.last() != '/');
    assert(t.len() > 0 && t[0] != '/' && t.last() != '/' && lacks(t, '/'));
    assert("_"@ =~= seq!['_']);
    assert(folder =~= gs.date + seq!['_'] + gs.time);
    assert(lacks(folder, '/'));
    assert(folder.len() > 0 && folder[0] != '/' && folder.last() != '/');
    let ngp = group_path_spec(name);
    assert(ngp =~= a + seq!['/'] + grp + seq!['/'] + name);
    let dir = gs.moved_path(ngp);
    assert(dir =~= a + seq!['/'] + grp + seq!['/'] + name + seq!['/'] + t + seq!['/'] + folder);
    let raw = path_join_spec(dir, rel);
    assert(raw =~= dir + seq!['/'] + rel);
    // the pieces of the path
    lemma_split_without_separator(a, '/');
    lemma_split_without_separator(grp, '/');
    lemma_split_without_separator(name, '/');
    lemma_split_without_separator(t, '/');
    lemma_split_without_separator(folder, '/');
    let x1 = a + seq!['/'] + grp;
    let x2 = x1 + seq!['/'] + name;
    let x3 = x2 + seq!['/'] + t;
    let x4 = x3 + seq!['/'] + folder;
    lemma_split_concat(a, '/', grp);
    lemma_split_concat(x1, '/', name);
    lemma_split_concat(x2, '/', t);
    lemma_split_concat(x3, '/', folder);
    lemma_split_concat(x4, '/', rel);
    assert(dir =~= x4);
    lemma_split_nonempty(rel, '/');
    let pieces = split_spec(raw, '/');
    assert(pieces =~= seq![a, grp, name, t, folder] + split_spec(rel, '/'));
    let parts = snapshot_parts(raw);
    assert(parts =~= seq![grp, name, t, folder] + split_spec(rel, '/'));
    assert(parts.skip(4) =~= split_spec(rel, '/'));
    assert("/"@ =~= seq!['/']);
    lemma_join_split(rel, '/');
    assert(related_path(parts) == rel);
    lemma_first_where(groups.len() as int, is_named(groups, name), g);
    assert(is_at(subvolumes, rel)(k));
    lemma_first_where(subvolumes.len() as int, is_at(subvolumes, rel), k);
    assert(snapshot_location(raw, groups, subvolumes) == Some((g, k)));
    lemma_name_round_trip(gs.snapshot_type);
    lemma_split_once_concat(gs.date, '_', gs.time);
    // the full path below the mount point
    let m = MOUNT_POINT@;
    assert(m.last() == '/');
    assert(path_join_spec(m, dir) =~= m + dir);
    assert(path_join_spec(m + dir, rel) =~= m + raw);
}

/// A manager made by `BtrfsManager::new` from a configuration that is, or
/// is not, that of a first launch keeps saying so through every later
/// change by its `&mut` methods: the configuration it hands back
/// (`get_app_config`) has the flag `!existed` throughout.
pub proof fn lemma_manager_keeps_first_launch_flag(
    existed: bool,
    config: AppConfig,
    managers: Seq<BtrfsManagerView>,
)
    requires
        config.first_time_launch == !existed,
        managers.len() > 0,
        managers[0].first_time_launch == config.first_time_launch,
        forall|i: int, j: int|
            0 <= i < managers.len() && j == i + 1 && j < managers.len() ==> #[trigger] manager_step(
                managers[i],
                managers[j],
            ),
    ensures
        forall|i: int| 0 <= i < managers.len() ==> (#[trigger] managers[i]).first_time_launch == !existed,
    decreases managers.len(),
{
    if managers.len() > 1 {
        let shorter = managers.drop_last();
        assert forall|i: int, j: int|
            0 <= i < shorter.len() && j == i + 1 && j < shorter.len() implies #[trigger] manager_step(
                shorter[i],
                shorter[j],
            ) by {
            assert(manager_step(managers[i], managers[j]));
        }
        lemma_manager_keeps_first_launch_flag(existed, config, shorter);
        let n = managers.len() - 1;
        assert(manager_step(managers[n - 1], managers[n]));
        assert forall|i: int| 0 <= i < managers.len() implies (#[trigger] managers[i]).first_time_launch == !existed by {
            if i < n {
                assert(managers[i] == shorter[i]);
            } else {
                assert(managers[n - 1] == shorter[n - 1]);
                assert(shorter[n - 1].first_time_launch == !existed);
            }
        }
    }
}

/// Checking every group against `subvolumes` appends to `removed` exactly
/// the subvolumes of the groups that are not among `subvolumes`, each as
/// often as the groups hold it.
pub proof fn lemma_verify_all_removes_missing(
    groups: Seq<GroupView>,
    subvolumes: Seq<Seq<char>>,
    removed: Seq<Seq<char>>,
)
    ensures
        ({
            let r = verify_all(groups, subvolumes, removed).1;
            &&& removed.len() <= r.len()
            &&& r.take(removed.len() as int) == removed
            &&& r.skip(removed.len() as int).to_multiset() == missing_subvolumes(groups, subvolumes)
        }),
    decreases groups.len(),
{
    broadcast use vstd::seq_lib::group_to_multiset_ensures;
    broadcast use vstd::multiset::group_multiset_axioms;

    let n = removed.len() as int;
    if groups.len() == 0 {
        assert(verify_all(groups, subvolumes, removed).1.skip(n) =~= Seq::<Seq<char>>::empty());
        assert(all_subvolumes(groups) =~= Seq::<Seq<char>>::empty());
        assert(missing_subvolumes(groups, subvolumes) =~= Multiset::empty());
    } else {
        let front = groups.drop_last();
        let g = groups.last();
        lemma_verify_all_removes_missing(front, subvolumes, removed);
        let r1 = verify_all(front, subvolumes, removed).1;
        lemma_swap_remove_unlisted_removes(g.subvolumes, 0, r1, subvolumes);
        let r2 = swap_remove_unlisted(g.subvolumes, 0, r1, subvolumes).1;
        assert(r2 == verify_all(groups, subvolumes, removed).1);
        let a = r1.skip(n);
        let b = r2.skip(r1.len() as int);
        assert(r2.take(n) =~= r2.take(r1.len() as int).take(n));
        assert(r2.skip(n) =~= a + b);
        vstd::seq_lib::lemma_multiset_commutative(a, b);
        assert(g.subvolumes.skip(0) =~= g.subvolumes);
        assert(all_subvolumes(groups) == all_subvolumes(front) + g.subvolumes);
        vstd::seq_lib::lemma_multiset_commutative(all_subvolumes(front), g.subvolumes);
        assert(r2.skip(n).to_multiset() =~= missing_subvolumes(groups, subvolumes));
    }
}

/// Registering listed paths fails exactly when some subvolume of the groups
/// is not among the partition's subvolumes, and the error then lists
/// exactly those, each as often as the groups hold it.
pub proof fn lemma_registered_reports_missing(
    before: BtrfsManagerView,
    after: BtrfsManagerView,
    listed: Seq<Seq<char>>,
    r: Result<(), AppError>,
)
    requires
        registered(before, after, listed, r),
    ensures
        ({
            let missing = missing_subvolumes(before.groups, before.subvolumes + subvolume_paths_spec(listed));
            &&& r is Err <==> missing.len() > 0
            &&& r matches Err(AppError::ConfigErrSubvolumeNotExist(removed)) ==> views(removed@).to_multiset()
                == missing
        }),
{
    broadcast use vstd::seq_lib::group_to_multiset_ensures;

    let subs = before.subvolumes + subvolume_paths_spec(listed);
    let e = Seq::<Seq<char>>::empty();
    lemma_verify_all_removes_missing(before.groups, subs, e);
    let m = verify_all(before.groups, subs, e).1;
    assert(m.skip(0) =~= m);
}

} // verus!
