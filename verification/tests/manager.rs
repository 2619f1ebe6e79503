use tram_btrfs::app_config::{AppConfig, AutoSnapshotSchedule};
use tram_btrfs::btrfs_manager::BtrfsManager;
use tram_btrfs::btrfs_objects::group::Group;
use tram_btrfs::btrfs_objects::group_snapshot::SnapshotType;
use tram_btrfs::error::AppError;

fn strings(v: &[&str]) -> Vec<String> {
    v.iter().map(|s| s.to_string()).collect()
}

const LISTING: &str = "ID 256 gen 57067 top level 5 path @
ID 257 gen 57067 top level 5 path @home
ID 365 gen 56472 top level 5 path timeshift-btrfs/snapshots/2026-04-16_15-07-30/@
ID 366 gen 56473 top level 5 path timeshift-btrfs/snapshots/2026-04-16_15-07-30/@home
ID 369 gen 57190 top level 5 path tram_btrfs/snapshot_groups/default/manually/2026-04-16_21-26-00/@
";

fn manager(groups: Vec<Group>) -> BtrfsManager {
    let config = AppConfig::from_parts(AutoSnapshotSchedule::new_default(), groups);
    BtrfsManager::new("/dev/sda2".to_string(), config)
}

#[test]
fn listing_sorts_subvolumes_and_snapshots() {
    let mut m = manager(vec![Group::new("default".to_string(), strings(&["@", "@home"]))]);
    assert!(m.get_subvolumes_and_snapshots(LISTING).is_ok());
    assert_eq!(
        m.get_subvolumes(),
        &strings(&[
            "@",
            "@home",
            "timeshift-btrfs/snapshots/2026-04-16_15-07-30/@",
            "timeshift-btrfs/snapshots/2026-04-16_15-07-30/@home",
        ])[..]
    );
    let groups = m.get_groups();
    let snaps = groups[0].get_snapshots();
    assert_eq!(snaps.len(), 1);
    assert_eq!(snaps[0].get_date(), "2026-04-16");
    assert_eq!(snaps[0].get_time(), "21-26-00");
    assert_eq!(snaps[0].get_type(), SnapshotType::Manually);
    assert_eq!(snaps[0].get_snapshoted_subvolumes(), strings(&["@"]));
    assert!(m.get_broken_snapshots().is_empty());
}

#[test]
fn lines_without_the_pattern_are_ignored() {
    let mut m = manager(vec![]);
    let out = "garbage\nID 1 gen 2 top level 5 path @\n  ID 3 top level 5 path x\nID 4 top level 256 path y\n";
    assert!(m.get_subvolumes_and_snapshots(out).is_ok());
    assert_eq!(m.get_subvolumes(), &strings(&["@"])[..]);
}

#[test]
fn path_follows_last_marker_with_text_after_it() {
    let mut m = manager(vec![]);
    let out = "ID 1 top level 5 path a top level 5 path b\nID 2 top level 5 path x top level 5 path \nIDtop level 5 path c\r\nID top level 5 path \n";
    assert!(m.get_subvolumes_and_snapshots(out).is_ok());
    assert_eq!(m.get_subvolumes(), &strings(&["b", "x top level 5 path ", "c\r"])[..]);
}

#[test]
fn missing_configured_subvolume_is_an_error() {
    let mut m = manager(vec![Group::new("default".to_string(), strings(&["@", "@var"]))]);
    match m.get_subvolumes_and_snapshots(LISTING) {
        Err(AppError::ConfigErrSubvolumeNotExist(missing)) => assert_eq!(missing, strings(&["@var"])),
        other => panic!("unexpected {other:?}"),
    }
    assert_eq!(m.get_groups()[0].get_subvolumes(), &strings(&["@"])[..]);
    assert!(m.get_groups()[0].get_snapshots().is_empty());
}

#[test]
fn unplaceable_snapshots_are_broken() {
    let mut m = manager(vec![Group::new("default".to_string(), strings(&["@"]))]);
    let listed = strings(&[
        "@",
        "tram_btrfs/snapshot_groups/other/manually/d_t/@",
        "tram_btrfs/snapshot_groups/default/hourly/d_t/@",
        "tram_btrfs/snapshot_groups/default/manually/no-time/@",
        "tram_btrfs/snapshot_groups/default/manually/d_t/@missing",
        "tram_btrfs/broken/x",
        "tram_btrfs/snapshot_groups/default/weekly/d_t/@",
    ]);
    assert!(m.register_listed_paths(&listed).is_ok());
    let broken = m.get_broken_snapshots();
    assert_eq!(broken.len(), 5);
    assert_eq!(broken[0].get_related_subvolume(), None);
    assert_eq!(broken[1].get_related_subvolume(), Some("@".to_string()));
    assert_eq!(broken[2].get_related_subvolume(), Some("@".to_string()));
    assert_eq!(broken[3].get_related_subvolume(), None);
    assert_eq!(broken[4].get_path(), "tram_btrfs/broken/x");
    let snaps = m.get_groups()[0].get_snapshots();
    assert_eq!(snaps.len(), 1);
    assert_eq!(snaps[0].get_type(), SnapshotType::Weekly);
}

#[test]
fn each_snapshot_is_placed_once() {
    let mut m = manager(vec![Group::new("default".to_string(), strings(&["@"]))]);
    let listed = strings(&[
        "@",
        "tram_btrfs/snapshot_groups/default/manually/d_t/@",
        "tram_btrfs/snapshot_groups/default/manually/d_t/@",
        "tram_btrfs/x",
    ]);
    m.register_listed_paths(&listed).unwrap();
    let recorded: usize = m.get_groups()[0]
        .get_snapshots()
        .iter()
        .map(|s| s.get_subvolume_snapshots().len())
        .sum();
    assert_eq!(recorded + m.get_broken_snapshots().len(), 3);
    assert_eq!(m.get_groups()[0].get_snapshots().len(), 1);
}

#[test]
fn rename_group_out_of_range() {
    let mut m = manager(vec![Group::new("default".to_string(), strings(&["@"]))]);
    match m.rename_group(3, "x".to_string()) {
        Err(AppError::Bug(msg)) => assert_eq!(msg, "Invalid index(3) occurs when renaming group"),
        other => panic!("unexpected {other:?}"),
    }
    assert!(m.rename_group(0, "x".to_string()).unwrap().is_empty());
    assert_eq!(m.get_groups()[0].get_name(), "default");
}

#[test]
fn add_subvolume_to_group_checks_both_indices() {
    let mut m = manager(vec![Group::new("default".to_string(), vec![])]);
    m.register_listed_paths(&strings(&["@", "@home"])).unwrap();
    match m.add_subvol_to_group(0, 2) {
        Err(AppError::Bug(msg)) => {
            assert_eq!(msg, "Invalid index(2) occurs when add subvolume to group(invalid subvolume index)")
        },
        other => panic!("unexpected {other:?}"),
    }
    match m.add_subvol_to_group(1, 0) {
        Err(AppError::Bug(msg)) => {
            assert_eq!(msg, "Invalid index(1) occurs when add subvolume to group(invalid group index)")
        },
        other => panic!("unexpected {other:?}"),
    }
    m.add_subvol_to_group(0, 1).unwrap();
    assert_eq!(m.get_groups()[0].get_subvolumes(), &strings(&["@home"])[..]);
}

#[test]
fn delete_snapshot_of_group() {
    let mut m = manager(vec![Group::new("default".to_string(), strings(&["@"]))]);
    m.register_listed_paths(&strings(&["@", "tram_btrfs/snapshot_groups/default/daily/d_t/@"])).unwrap();
    match m.delete_snapshot(4, 0) {
        Err(AppError::Bug(msg)) => {
            assert_eq!(msg, "Invalid index(4) occurs when deleting snapshot(invalid group index)")
        },
        other => panic!("unexpected {other:?}"),
    }
    let gs = m.delete_snapshot(0, 0).unwrap();
    assert_eq!(gs.get_type(), SnapshotType::Daily);
    assert!(m.get_groups()[0].get_snapshots().is_empty());
}

#[test]
fn renamed_snapshot_is_found_again_under_new_name() {
    let mut g = Group::new("default".to_string(), strings(&["archlinux/@home"]));
    let raw = "tram_btrfs/snapshot_groups/default/manually/2026-04-16_21:26:00/archlinux/@home";
    assert!(g.add_snapshot(raw, "manually", "2026-04-16_21:26:00", "archlinux/@home".to_string()));
    let plan = g.rename_group("work".to_string());
    let to = plan[0][0].as_ref().unwrap().to.clone();
    let below_mount = to.strip_prefix("/run/tram_btrfs/").unwrap().to_string();

    let mut m = manager(vec![Group::new("work".to_string(), strings(&["archlinux/@home"]))]);
    m.register_listed_paths(&[String::from("archlinux/@home"), below_mount]).unwrap();
    assert!(m.get_broken_snapshots().is_empty());
    let snaps = m.get_groups()[0].get_snapshots();
    assert_eq!(snaps.len(), 1);
    assert_eq!(snaps[0].get_date(), "2026-04-16");
    assert_eq!(snaps[0].get_time(), "21:26:00");
    assert_eq!(snaps[0].get_type(), SnapshotType::Manually);
    assert_eq!(snaps[0].get_snapshoted_subvolumes(), strings(&["archlinux/@home"]));
}

#[test]
fn every_missing_subvolume_is_reported_as_often_as_held() {
    let mut m = manager(vec![
        Group::new("a".to_string(), strings(&["@var", "@", "@opt"])),
        Group::new("b".to_string(), strings(&["@home", "@var"])),
    ]);
    match m.get_subvolumes_and_snapshots(LISTING) {
        Err(AppError::ConfigErrSubvolumeNotExist(missing)) => {
            let mut missing = missing;
            missing.sort();
            assert_eq!(missing, strings(&["@opt", "@var", "@var"]));
        },
        other => panic!("unexpected {other:?}"),
    }
}

#[test]
fn first_launch_flag_survives_changes() {
    let mut c = AppConfig::new_first_launch();
    c.add_new_group("g".to_string(), strings(&["@"]));
    c.change_schedule(AutoSnapshotSchedule { daily_max: 1, weekly_max: 2, monthly_max: 3, boot_max: 4 });
    assert!(c.rename_group(0, "h".to_string()).is_ok());
    assert!(c.is_first_time_launch());
    let mut m = BtrfsManager::new("/dev/sda2".to_string(), c);
    assert!(m.get_subvolumes_and_snapshots(LISTING).is_ok());
    assert!(m.get_app_config().is_first_time_launch());
    let mut m2 = manager(vec![]);
    assert!(m2.get_subvolumes_and_snapshots(LISTING).is_ok());
    assert!(!m2.get_app_config().is_first_time_launch());
}
