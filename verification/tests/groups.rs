use tram_btrfs::btrfs_objects::group::Group;
use tram_btrfs::btrfs_objects::group_snapshot::{GroupSnapshot, SnapshotType};
use tram_btrfs::btrfs_objects::subvolume_snapshot::SubvolumeSnapshot;
use tram_btrfs::error::AppError;

fn strings(v: &[&str]) -> Vec<String> {
    v.iter().map(|s| s.to_string()).collect()
}

const RAW: &str = "tram_btrfs/snapshot_groups/default/manually/2026-04-16_21:26:00/archlinux/@home";

#[test]
fn add_snapshot_creates_a_group_snapshot() {
    let mut g = Group::new("default".to_string(), strings(&["archlinux/@home"]));
    assert!(g.add_snapshot(RAW, "manually", "2026-04-16_21:26:00", "archlinux/@home".to_string()));
    let snaps = g.get_snapshots();
    assert_eq!(snaps.len(), 1);
    assert_eq!(snaps[0].get_date(), "2026-04-16");
    assert_eq!(snaps[0].get_time(), "21:26:00");
    assert_eq!(snaps[0].get_type(), SnapshotType::Manually);
    let subs = snaps[0].get_subvolume_snapshots();
    assert_eq!(subs.len(), 1);
    assert_eq!(subs[0].get_path(), RAW);
    assert_eq!(subs[0].get_related_subvolume(), Some("archlinux/@home".to_string()));
}

#[test]
fn add_snapshot_joins_the_group_snapshot_with_its_key() {
    let mut g = Group::new("default".to_string(), strings(&["@", "@home"]));
    assert!(g.add_snapshot("p1", "manually", "d1_t1", "@".to_string()));
    assert!(g.add_snapshot("p2", "daily", "d1_t1", "@".to_string()));
    assert!(g.add_snapshot("p3", "Manually", "d1_t1", "@home".to_string()));
    assert!(g.add_snapshot("p4", "manually", "d1_t2", "@home".to_string()));
    let snaps = g.get_snapshots();
    assert_eq!(snaps.len(), 3);
    assert_eq!(snaps[0].get_subvolume_snapshots().len(), 2);
    assert_eq!(snaps[0].get_snapshoted_subvolumes(), strings(&["@", "@home"]));
    assert_eq!(snaps[1].get_type(), SnapshotType::Daily);
    assert_eq!(snaps[2].get_time(), "t2");
}

#[test]
fn add_snapshot_refuses_unknown_type_or_folder() {
    let mut g = Group::new("default".to_string(), strings(&["@"]));
    assert!(!g.add_snapshot("p", "boot", "d_t", "@".to_string()));
    assert!(!g.add_snapshot("p", "manually", "2026-04-16", "@".to_string()));
    assert_eq!(g.get_snapshots().len(), 0);
}

#[test]
fn verify_subvolumes_moves_missing_ones() {
    let mut g = Group::new("default".to_string(), strings(&["@", "gone", "@home", "also_gone"]));
    let available = strings(&["@home/", "@", "other"]);
    let mut removed = strings(&["earlier"]);
    g.verify_subvolumes(&available, &mut removed);
    let mut kept = g.get_subvolumes().to_vec();
    kept.sort();
    assert_eq!(kept, strings(&["@", "@home"]));
    assert_eq!(removed[0], "earlier");
    let mut added = removed[1..].to_vec();
    added.sort();
    assert_eq!(added, strings(&["also_gone", "gone"]));
    assert_eq!(g.get_name(), "default");
}

#[test]
fn verify_subvolumes_keeps_all_when_all_exist() {
    let mut g = Group::new("g".to_string(), strings(&["a", "b"]));
    let mut removed = Vec::new();
    g.verify_subvolumes(&strings(&["b", "a"]), &mut removed);
    assert_eq!(g.get_subvolumes(), &strings(&["a", "b"])[..]);
    assert!(removed.is_empty());
}

#[test]
fn rename_moves_every_snapshot() {
    let mut g = Group::new("default".to_string(), strings(&["@", "@home"]));
    g.add_snapshot(
        "tram_btrfs/snapshot_groups/default/manually/2026-04-16_21:26:00/@",
        "manually",
        "2026-04-16_21:26:00",
        "@".to_string(),
    );
    g.add_snapshot(
        "tram_btrfs/snapshot_groups/default/daily/2026-04-17_00:00:00/@home",
        "daily",
        "2026-04-17_00:00:00",
        "@home".to_string(),
    );
    let plan = g.rename_group("work".to_string());
    assert_eq!(g.get_name(), "work");
    assert_eq!(plan.len(), 2);
    match &plan[0][0] {
        Ok(m) => {
            assert_eq!(
                m.from,
                "/run/tram_btrfs/tram_btrfs/snapshot_groups/default/manually/2026-04-16_21:26:00/@"
            );
            assert_eq!(
                m.to,
                "/run/tram_btrfs/tram_btrfs/snapshot_groups/work/manually/2026-04-16_21:26:00/@"
            );
        },
        Err(e) => panic!("unexpected {e:?}"),
    }
    match &plan[1][0] {
        Ok(m) => assert_eq!(
            m.to,
            "/run/tram_btrfs/tram_btrfs/snapshot_groups/work/daily/2026-04-17_00:00:00/@home"
        ),
        Err(e) => panic!("unexpected {e:?}"),
    }
}

#[test]
fn rename_without_snapshots_keeps_the_name() {
    let mut g = Group::new("default".to_string(), strings(&["@"]));
    let plan = g.rename_group("work".to_string());
    assert!(plan.is_empty());
    assert_eq!(g.get_name(), "default");
    assert!(g.eq("default"));
    assert!(!g.eq("work"));
}

#[test]
fn snapshot_without_subvolume_cannot_move() {
    let s = SubvolumeSnapshot::new("tram_btrfs/x".to_string(), None);
    match s.move_snapshot("tram_btrfs/snapshot_groups/new") {
        Err(AppError::Bug(msg)) => assert_eq!(
            msg,
            "No related subvolume when moving snapshot:\n\tfrom: None\n\tto: \"tram_btrfs/snapshot_groups/new\""
        ),
        other => panic!("unexpected {other:?}"),
    }
    assert_eq!(s.get_fullpath(), "/run/tram_btrfs/tram_btrfs/x");
}

#[test]
fn delete_args_and_delete_snapshot() {
    let mut gs = GroupSnapshot::new("d".to_string(), "t".to_string(), SnapshotType::Weekly);
    gs.add_snapshot("tram_btrfs/a", "@".to_string());
    assert_eq!(
        gs.delete_args(),
        strings(&["subvolume", "delete", "/run/tram_btrfs/tram_btrfs/a"])
    );
    assert!(gs.eq(&("d", "t", &SnapshotType::Weekly)));
    assert!(!gs.eq(&("d", "t", &SnapshotType::Daily)));

    let mut g = Group::new("g".to_string(), strings(&["@"]));
    g.add_snapshot("p", "weekly", "d_t", "@".to_string());
    match g.delete_snapshot(1) {
        Err(AppError::Bug(m)) => assert_eq!(m, "Invalid index(1) occurs when deleting snapshot"),
        other => panic!("unexpected {other:?}"),
    }
    let removed = g.delete_snapshot(0).unwrap();
    assert_eq!(removed.get_type(), SnapshotType::Weekly);
    assert!(g.get_snapshots().is_empty());
    g.add_subvolume("@home");
    assert_eq!(g.get_subvolumes(), &strings(&["@", "@home"])[..]);
}

#[test]
fn group_snapshot_taken_now_has_date_and_time() {
    let gs = GroupSnapshot::_new_at_current_time(SnapshotType::Manually);
    let date = gs.get_date();
    let time = gs.get_time();
    assert_eq!(date.len(), 10);
    assert_eq!(&date[4..5], "-");
    assert_eq!(time.len(), 8);
    assert_eq!(&time[2..3], ":");
}

#[test]
fn folder_of_current_time_splits_back() {
    let gs = GroupSnapshot::_new_at_current_time(SnapshotType::Daily);
    let folder = format!("{}_{}", gs.get_date(), gs.get_time());
    assert_eq!(
        tram_btrfs::text::split_once(&folder, '_'),
        Some((gs.get_date(), gs.get_time()))
    );
}
