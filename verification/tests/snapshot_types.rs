use tram_btrfs::btrfs_objects::group_snapshot::SnapshotType as GroupSnapshotType;
use tram_btrfs::btrfs_objects::snapshot_type::SnapshotType;

#[test]
fn parses_names_in_either_case() {
    assert_eq!(SnapshotType::get_type("Manually"), Some(SnapshotType::Manually));
    assert_eq!(SnapshotType::get_type("daily"), Some(SnapshotType::Daily));
    assert_eq!(SnapshotType::get_type("Monthly"), Some(SnapshotType::Monthly));
    assert_eq!(SnapshotType::get_type("weekly"), Some(SnapshotType::Weekly));
    assert_eq!(SnapshotType::get_type("Boot"), Some(SnapshotType::Boot));
    assert_eq!(SnapshotType::get_type("boot"), Some(SnapshotType::Boot));
    assert_eq!(SnapshotType::get_type("DAILY"), None);
    assert_eq!(SnapshotType::get_type(""), None);
}

#[test]
fn displays_lower_case_names() {
    assert_eq!(SnapshotType::Manually.as_ref(), "manually");
    assert_eq!(SnapshotType::Boot.to_string(), "boot");
    assert_eq!(GroupSnapshotType::Weekly.to_string(), "weekly");
}

#[test]
fn displayed_name_parses_back() {
    for t in [
        SnapshotType::Manually,
        SnapshotType::Daily,
        SnapshotType::Monthly,
        SnapshotType::Weekly,
        SnapshotType::Boot,
    ] {
        assert_eq!(SnapshotType::get_type(&t.to_string()), Some(t));
    }
    for t in [
        GroupSnapshotType::Manually,
        GroupSnapshotType::Daily,
        GroupSnapshotType::Monthly,
        GroupSnapshotType::Weekly,
    ] {
        assert_eq!(GroupSnapshotType::get_type(t.as_ref()), Some(t));
    }
}

#[test]
fn group_snapshot_types_have_no_boot() {
    assert_eq!(GroupSnapshotType::get_type("boot"), None);
}
