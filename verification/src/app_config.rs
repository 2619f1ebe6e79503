//! The application's configuration: the schedule of automatic snapshots
//! and the snapshot groups.
use vstd::prelude::*;
use crate::btrfs_objects::group::{Group, GroupView, group_views, group_path_spec};
use crate::btrfs_objects::subvolume_snapshot::{SnapshotMove, move_outcome};
use crate::error::{AppError, throw_invalid_index, invalid_index_message};
use crate::text::views;

verus! {

/// `after` is `before` with the group at `index` renamed to `new_name`, as
/// `Group::rename_group` renames: a group without snapshots keeps its name.
pub open spec fn renamed_at(before: Seq<GroupView>, after: Seq<GroupView>, index: int, new_name: Seq<char>) -> bool {
    let g = before[index];
    &&& after.len() == before.len()
    &&& forall|j: int| 0 <= j < before.len() && j != index ==> #[trigger] after[j] == before[j]
    &&& g.snapshots.len() == 0 ==> after[index] == g
    &&& g.snapshots.len() > 0 ==> after[index] == (GroupView { name: new_name, ..g })
}

/// `plan` says where the snapshots of `g` go when it is renamed to
/// `new_name`: one list per group snapshot, one outcome per snapshot.
pub open spec fn rename_plan(
    g: GroupView,
    new_name: Seq<char>,
    plan: Seq<Vec<Result<SnapshotMove, AppError>>>,
) -> bool {
    &&& plan.len() == g.snapshots.len()
    &&& forall|i: int| 0 <= i < plan.len() ==> (#[trigger] plan[i])@.len() == g.snapshots[i].subvolume_snapshots.len()
    &&& forall|i: int, j: int|
        0 <= i < plan.len() && 0 <= j < plan[i]@.len() ==> move_outcome(
            g.snapshots[i].subvolume_snapshots[j],
            g.snapshots[i].moved_path(group_path_spec(new_name)),
            #[trigger] plan[i]@[j],
        )
}

/// What every method of `AppConfig` that takes it by `&mut` does:
/// whether the configuration is that of a first launch stays as it was, and
/// either the groups or the schedule stay as they were.
pub open spec fn config_step(before: AppConfig, after: AppConfig) -> bool {
    &&& after.first_time_launch == before.first_time_launch
    &&& (after.groups == before.groups || after.schedule == before.schedule)
}

/// How many automatic snapshots of each kind to keep.
#[derive(Debug, Clone, Copy)]
pub struct AutoSnapshotSchedule {
    pub daily_max: usize,
    pub weekly_max: usize,
    pub monthly_max: usize,
    pub boot_max: usize,
}

impl AutoSnapshotSchedule {
    /// A schedule that keeps no automatic snapshots.
    pub fn new_default() -> (r: Self)
        ensures
            r.daily_max == 0,
            r.weekly_max == 0,
            r.monthly_max == 0,
            r.boot_max == 0,
    {
        Self { daily_max: 0, monthly_max: 0, weekly_max: 0, boot_max: 0 }
    }

    /// Keeps `new` daily snapshots.
    pub fn _change_daily(&mut self, new: usize)
        ensures
            *final(self) == (AutoSnapshotSchedule { daily_max: new, ..*old(self) }),
    {
        self.daily_max = new;
    }

    /// Keeps `new` weekly snapshots.
    pub fn _change_weekly(&mut self, new: usize)
        ensures
            *final(self) == (AutoSnapshotSchedule { weekly_max: new, ..*old(self) }),
    {
        self.weekly_max = new;
    }

    /// Keeps `new` monthly snapshots.
    pub fn _change_monthly(&mut self, new: usize)
        ensures
            *final(self) == (AutoSnapshotSchedule { monthly_max: new, ..*old(self) }),
    {
        self.monthly_max = new;
    }

    /// Keeps `new` boot snapshots.
    pub fn _change_boot(&mut self, new: usize)
        ensures
            *final(self) == (AutoSnapshotSchedule { boot_max: new, ..*old(self) }),
    {
        self.boot_max = new;
    }
}

/// The configuration of the application.
#[derive(Debug)]
pub struct AppConfig {
    pub schedule: AutoSnapshotSchedule,
    pub groups: Vec<Group>,
    /// Whether no configuration existed when this one was made.
    pub first_time_launch: bool,
}

impl AppConfig {
    /// The configuration written on the first launch: no automatic
    /// snapshots and no groups.
    pub fn new_first_launch() -> (r: Self)
        ensures
            r.schedule == AutoSnapshotSchedule::new_default_spec(),
            r.groups@.len() == 0,
            r.first_time_launch,
    {
        AppConfig { schedule: AutoSnapshotSchedule::new_default(), groups: Vec::new(), first_time_launch: true }
    }

    /// A configuration read back from its file, with `schedule` and `groups`.
    pub fn from_parts(schedule: AutoSnapshotSchedule, groups: Vec<Group>) -> (r: Self)
        ensures
            r.schedule == schedule,
            r.groups == groups,
            !r.first_time_launch,
    {
        AppConfig { schedule, groups, first_time_launch: false }
    }

    /// Whether no configuration existed when this one was made.
    pub fn is_first_time_launch(&self) -> (r: bool)
        ensures
            r == self.first_time_launch,
    {
        self.first_time_launch
    }

    /// The schedule of automatic snapshots.
    pub fn get_schedule(&self) -> (r: AutoSnapshotSchedule)
        ensures
            r == self.schedule,
    {
        self.schedule
    }

    /// Replaces the schedule of automatic snapshots.
    pub fn change_schedule(&mut self, new_schedule: AutoSnapshotSchedule)
        ensures
            config_step(*old(self), *final(self)),
            final(self).schedule == new_schedule,
            final(self).groups == old(self).groups,
            final(self).first_time_launch == old(self).first_time_launch,
    {
        self.schedule = new_schedule;
    }

    /// Adds a group named `group_name` of the subvolumes at `subvolumes`.
    pub fn add_new_group(&mut self, group_name: String, subvolumes: Vec<String>)
        ensures
            config_step(*old(self), *final(self)),
            group_views(final(self).groups@) == group_views(old(self).groups@).push(
                GroupView { name: group_name@, subvolumes: views(subvolumes@), snapshots: Seq::empty() },
            ),
            final(self).schedule == old(self).schedule,
            final(self).first_time_launch == old(self).first_time_launch,
    {
        let ghost before = group_views(self.groups@);
        let g = Group::new(group_name, subvolumes);
        self.groups.push(g);
        assert(group_views(self.groups@) =~= before.push(g@));
    }

    /// Renames the group at `index` to `new_name`, as `Group::rename_group`
    /// does, and says where its snapshots go; an index past the end is an
    /// internal error.
    pub fn rename_group(&mut self, index: usize, new_name: String) -> (r: Result<
        Vec<Vec<Result<SnapshotMove, AppError>>>,
        AppError,
    >)
        ensures
            config_step(*old(self), *final(self)),
            final(self).schedule == old(self).schedule,
            final(self).first_time_launch == old(self).first_time_launch,
            index >= old(self).groups@.len() ==> group_views(final(self).groups@) == group_views(
                old(self).groups@,
            ),
            index >= old(self).groups@.len() ==> (r matches Err(AppError::Bug(m)) && m@
                == invalid_index_message(index as nat, "renaming group"@)),
            index < old(self).groups@.len() ==> renamed_at(
                group_views(old(self).groups@),
                group_views(final(self).groups@),
                index as int,
                new_name@,
            ),
            index < old(self).groups@.len() ==> (r matches Ok(plan) && rename_plan(
                old(self).groups@[index as int]@,
                new_name@,
                plan@,
            )),
    {
        if index >= self.groups.len() {
            return throw_invalid_index(index, "renaming group");
        }
        let ghost before = group_views(self.groups@);
        assert(before[index as int] == self.groups@[index as int]@);
        let mut g = self.groups.remove(index);
        let plan = g.rename_group(new_name);
        let ghost gv = g@;
        self.groups.insert(index, g);
        assert(group_views(self.groups@) =~= before.update(index as int, gv));
        Ok(plan)
    }
}

impl AutoSnapshotSchedule {
    /// The schedule that keeps no automatic snapshots.
    pub open spec fn new_default_spec() -> AutoSnapshotSchedule {
        AutoSnapshotSchedule { daily_max: 0, weekly_max: 0, monthly_max: 0, boot_max: 0 }
    }
}

/// Whether a configuration is that of a first launch is settled when it is
/// made, `true` exactly where no configuration existed before
/// (`new_first_launch`, against `from_parts` for one read back), and no later
/// change alters it: along configurations each obtained from the one before
/// by a method that takes it by `&mut`, `is_first_time_launch` keeps
/// answering `!existed`.
pub proof fn lemma_first_launch_flag_kept(existed: bool, configs: Seq<AppConfig>)
    requires
        configs.len() > 0,
        configs[0].first_time_launch == !existed,
        forall|i: int, j: int|
            0 <= i < configs.len() && j == i + 1 && j < configs.len() ==> #[trigger] config_step(
                configs[i],
                configs[j],
            ),
    ensures
        forall|i: int| 0 <= i < configs.len() ==> (#[trigger] configs[i]).first_time_launch == !existed,
    decreases configs.len(),
{
    if configs.len() > 1 {
        let shorter = configs.drop_last();
        assert forall|i: int, j: int|
            0 <= i < shorter.len() && j == i + 1 && j < shorter.len() implies #[trigger] config_step(
                shorter[i],
                shorter[j],
            ) by {
            assert(config_step(configs[i], configs[j]));
        }
        lemma_first_launch_flag_kept(existed, shorter);
        let n = configs.len() - 1;
        assert(config_step(configs[n - 1], configs[n]));
        assert forall|i: int| 0 <= i < configs.len() implies (#[trigger] configs[i]).first_time_launch == !existed by {
            if i < n {
                assert(configs[i] == shorter[i]);
            } else {
                assert(configs[n - 1] == shorter[n - 1]);
                assert(shorter[n - 1].first_time_launch == !existed);
            }
        }
    }
}

} // verus!
