use tram_btrfs::app_config::{AppConfig, AutoSnapshotSchedule};
use tram_btrfs::error::{throw_bug, throw_invalid_index, AppError};
use tram_btrfs::utils::{
    check_is_btrfs_filesystem, check_root_permission, date_time_or_utc, format_date_time, get_crr_os_device,
    get_current_date_time, mount_point_join, root_permission, DateTimeFields,
};

#[test]
fn schedule_changes() {
    let mut s = AutoSnapshotSchedule::new_default();
    assert_eq!((s.daily_max, s.weekly_max, s.monthly_max, s.boot_max), (0, 0, 0, 0));
    s._change_daily(3);
    s._change_weekly(2);
    s._change_monthly(1);
    s._change_boot(5);
    assert_eq!((s.daily_max, s.weekly_max, s.monthly_max, s.boot_max), (3, 2, 1, 5));
}

#[test]
fn config_first_launch_and_groups() {
    let mut c = AppConfig::new_first_launch();
    assert!(c.is_first_time_launch());
    assert_eq!(c.get_schedule().daily_max, 0);
    c.add_new_group("default".to_string(), vec!["@".to_string()]);
    assert_eq!(c.groups.len(), 1);
    assert_eq!(c.groups[0].get_name(), "default");
    let mut s = AutoSnapshotSchedule::new_default();
    s.weekly_max = 4;
    c.change_schedule(s);
    assert_eq!(c.get_schedule().weekly_max, 4);
    match c.rename_group(1, "x".to_string()) {
        Err(AppError::Bug(m)) => assert_eq!(m, "Invalid index(1) occurs when renaming group"),
        other => panic!("unexpected {other:?}"),
    }
    let loaded = AppConfig::from_parts(s, vec![]);
    assert!(!loaded.is_first_time_launch());
}

#[test]
fn raised_errors() {
    match throw_bug::<()>("oops".to_string()) {
        Err(AppError::Bug(m)) => assert_eq!(m, "oops"),
        other => panic!("unexpected {other:?}"),
    }
    match throw_invalid_index::<u8>(42, "testing") {
        Err(AppError::Bug(m)) => assert_eq!(m, "Invalid index(42) occurs when testing"),
        other => panic!("unexpected {other:?}"),
    }
}

#[test]
fn os_device_is_text_before_bracket() {
    assert_eq!(get_crr_os_device("/dev/nvme0n1p2[/@]\n"), "/dev/nvme0n1p2");
    assert_eq!(get_crr_os_device("/dev/sda1\n"), "/dev/sda1\n");
}

#[test]
fn btrfs_check_reads_every_line() {
    assert!(check_is_btrfs_filesystem("/dev/sda2", "btrfs\n").is_ok());
    assert!(check_is_btrfs_filesystem("/dev/sda2", "  btrfs\nbtrfs\n").is_ok());
    match check_is_btrfs_filesystem("/dev/sda2", "btrfs\next4\n") {
        Err(AppError::NotBtrfs(d)) => assert_eq!(d, "/dev/sda2"),
        other => panic!("unexpected {other:?}"),
    }
    assert!(matches!(check_is_btrfs_filesystem("/dev/x", ""), Err(AppError::NotBtrfs(_))));
}

#[test]
fn joins_below_mount_point() {
    assert_eq!(mount_point_join("tram_btrfs/"), "/run/tram_btrfs/tram_btrfs/");
    assert_eq!(mount_point_join("/etc"), "/etc");
}

#[test]
fn root_check() {
    assert!(root_permission(true).is_ok());
    assert!(matches!(root_permission(false), Err(AppError::NoRootPermission)));
    assert!(matches!(check_root_permission(), Ok(()) | Err(AppError::NoRootPermission)));
}

#[test]
fn date_and_time_text() {
    let f = DateTimeFields { year: 2026, month: 4, day: 6, hour: 9, minute: 5, second: 0 };
    assert_eq!(format_date_time(f), ("2026-04-06".to_string(), "09:05:00".to_string()));
    let early = DateTimeFields { year: 7, month: 12, day: 31, hour: 23, minute: 59, second: 59 };
    assert_eq!(format_date_time(early).0, "0007-12-31");
    let bc = DateTimeFields { year: -44, month: 3, day: 15, hour: 0, minute: 0, second: 0 };
    assert_eq!(format_date_time(bc).0, "-0044-03-15");
    let (date, time) = get_current_date_time();
    assert_eq!(date.len(), 10);
    assert_eq!(time.len(), 8);
    assert!(date.chars().enumerate().all(|(i, c)| if i == 4 || i == 7 { c == '-' } else { c.is_ascii_digit() }));
}

#[test]
fn local_moment_is_preferred_over_utc() {
    let local = DateTimeFields { year: 2031, month: 11, day: 2, hour: 3, minute: 4, second: 5 };
    assert_eq!(date_time_or_utc(Some(local)), ("2031-11-02".to_string(), "03:04:05".to_string()));
    let (date, time) = date_time_or_utc(None);
    assert_eq!(date.len(), 10);
    assert_eq!(time.len(), 8);
    assert!(time.chars().enumerate().all(|(i, c)| if i == 2 || i == 5 { c == ':' } else { c.is_ascii_digit() }));
}
