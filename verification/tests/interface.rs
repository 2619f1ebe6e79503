use tram_btrfs::args::scan_args;
use tram_btrfs::btrfs_objects::group::Group;
use tram_btrfs::tui::app_tui::{get_sel_group, main_snapshot_rows, menu_action, navigate_menu, Key, MenuAction};
use tram_btrfs::tui::snapshots_ui::{
    handle_events, manual_block_percentage, selection_on_render, snapshot_table_rows, AppEvent,
    SnapshotFocus, SnapshotRow, SnapshotTableState, SnapshotsAction,
};
use tram_btrfs::tui::ui_states::{menu_item_at, menu_items, Menu};

fn strings(v: &[&str]) -> Vec<String> {
    v.iter().map(|s| s.to_string()).collect()
}

#[test]
fn menu_labels_and_order() {
    assert_eq!(
        menu_items(),
        vec![Menu::Snapshots, Menu::Groups, Menu::Subvolumes, Menu::BrokenSnapshots, Menu::Settings]
    );
    assert_eq!(Menu::Snapshots.as_ref(), " \u{f03e} Snapshots ");
    assert_eq!(Menu::Settings.to_string(), " \u{f013} Settings ");
}

#[test]
fn keys_of_the_menu() {
    assert_eq!(menu_action(Key::Char('k'), true), MenuAction::NavigateUp);
    assert_eq!(menu_action(Key::Up, true), MenuAction::NavigateUp);
    assert_eq!(menu_action(Key::Up, false), MenuAction::Nothing);
    assert_eq!(menu_action(Key::Char('j'), true), MenuAction::NavigateDown);
    assert_eq!(menu_action(Key::Char('g'), false), MenuAction::NavigateTop);
    assert_eq!(menu_action(Key::End, true), MenuAction::NavigateBottom);
    assert_eq!(menu_action(Key::Char('q'), false), MenuAction::Quit);
    assert_eq!(menu_action(Key::Esc, true), MenuAction::Quit);
    assert_eq!(menu_action(Key::Char('x'), true), MenuAction::Nothing);
}

#[test]
fn menu_navigation_follows_list_state() {
    assert_eq!(navigate_menu(Some(2), MenuAction::NavigateUp), Some(1));
    assert_eq!(navigate_menu(Some(0), MenuAction::NavigateUp), Some(0));
    assert_eq!(navigate_menu(None, MenuAction::NavigateUp), Some(usize::MAX));
    assert_eq!(navigate_menu(Some(2), MenuAction::NavigateDown), Some(3));
    assert_eq!(navigate_menu(None, MenuAction::NavigateDown), Some(0));
    assert_eq!(navigate_menu(Some(3), MenuAction::NavigateTop), Some(0));
    assert_eq!(navigate_menu(Some(3), MenuAction::NavigateBottom), Some(usize::MAX));
    assert_eq!(navigate_menu(Some(3), MenuAction::Quit), Some(3));
}

#[test]
fn selected_group_falls_back_to_first() {
    let mut sel = Some(1);
    assert_eq!(get_sel_group(&mut sel, 2), Some(1));
    assert_eq!(sel, Some(1));
    let mut sel = Some(5);
    assert_eq!(get_sel_group(&mut sel, 2), Some(0));
    assert_eq!(sel, Some(0));
    let mut sel = None;
    assert_eq!(get_sel_group(&mut sel, 0), None);
    assert_eq!(sel, None);
}

fn sample_group() -> Group {
    let mut g = Group::new("default".to_string(), strings(&["@", "@home"]));
    g.add_snapshot("p1", "manually", "2026-01-01_10:00:00", "@".to_string());
    g.add_snapshot("p2", "manually", "2026-01-01_10:00:00", "@home".to_string());
    g.add_snapshot("p3", "daily", "2026-01-02_00:00:00", "@".to_string());
    g.add_snapshot("p4", "manually", "2026-01-03_08:00:00", "@".to_string());
    g
}

#[test]
fn table_rows_split_manual_and_scheduled() {
    let g = sample_group();
    let (manual, scheduled) = snapshot_table_rows(g.get_snapshots());
    assert_eq!(manual.len(), 2);
    assert_eq!(manual[0].index, 0);
    assert_eq!(manual[0].cells, strings(&["2026-01-01", "10:00:00", "@  @home"]));
    assert_eq!(manual[1].index, 2);
    assert_eq!(scheduled.len(), 1);
    assert_eq!(scheduled[0].index, 1);
    assert_eq!(scheduled[0].cells, strings(&["2026-01-02", "00:00:00", "daily", "@"]));
}

fn state(focus: SnapshotFocus, m: Option<usize>, s: Option<usize>) -> SnapshotTableState {
    SnapshotTableState { focus, manual_selected: m, scheduled_selected: s }
}

fn rows(indices: &[usize]) -> Vec<SnapshotRow> {
    indices.iter().map(|&index| SnapshotRow { index, cells: vec![] }).collect()
}

#[test]
fn events_of_the_snapshots_view() {
    let manual = rows(&[0, 2]);
    let scheduled = rows(&[1, 3, 4]);
    let mut st = state(SnapshotFocus::ManualSnapshot, None, None);
    assert_eq!(handle_events(&mut st, AppEvent::Down, true, &manual, &scheduled), SnapshotsAction::Nothing);
    assert_eq!(st.manual_selected, Some(0));
    handle_events(&mut st, AppEvent::Bottom, true, &manual, &scheduled);
    assert_eq!(st.manual_selected, Some(usize::MAX));
    assert_eq!(
        handle_events(&mut st, AppEvent::Delete, true, &manual, &scheduled),
        SnapshotsAction::DeleteSnapshot(2)
    );
    handle_events(&mut st, AppEvent::WindowDown, true, &manual, &scheduled);
    assert_eq!(st.focus, SnapshotFocus::ScheduledSnapshot);
    handle_events(&mut st, AppEvent::Up, true, &manual, &scheduled);
    assert_eq!(st.scheduled_selected, Some(usize::MAX));
    assert_eq!(
        handle_events(&mut st, AppEvent::Delete, true, &manual, &scheduled),
        SnapshotsAction::DeleteSnapshot(3)
    );
    assert_eq!(handle_events(&mut st, AppEvent::Delete, false, &manual, &scheduled), SnapshotsAction::Refresh);
    assert_eq!(
        handle_events(&mut st, AppEvent::Create, true, &manual, &scheduled),
        SnapshotsAction::CreateManualSnapshot
    );
    assert_eq!(handle_events(&mut st, AppEvent::Create, false, &manual, &scheduled), SnapshotsAction::Refresh);
    assert_eq!(
        handle_events(&mut st, AppEvent::Return, true, &manual, &scheduled),
        SnapshotsAction::ReturnToMenu
    );
    assert_eq!(
        handle_events(&mut st, AppEvent::WindowLeft, true, &manual, &scheduled),
        SnapshotsAction::ReturnToMenu
    );
    let mut detail = state(SnapshotFocus::DetailedInfo, None, None);
    assert_eq!(handle_events(&mut detail, AppEvent::WindowUp, true, &manual, &scheduled), SnapshotsAction::Nothing);
    assert_eq!(detail.focus, SnapshotFocus::DetailedInfo);
    handle_events(&mut detail, AppEvent::Top, true, &manual, &scheduled);
    assert_eq!(detail.scheduled_selected, Some(0));
    assert_eq!(handle_events(&mut detail, AppEvent::Return, true, &manual, &scheduled), SnapshotsAction::Nothing);
    assert_eq!(detail.focus, SnapshotFocus::ManualSnapshot);
}

#[test]
fn render_selection_and_layout() {
    assert_eq!(selection_on_render(false, Some(3)), None);
    assert_eq!(selection_on_render(true, None), Some(0));
    assert_eq!(selection_on_render(true, Some(3)), Some(3));
    assert_eq!(manual_block_percentage(0, 0), 50);
    assert_eq!(manual_block_percentage(1, 1), 50);
    assert_eq!(manual_block_percentage(1, 9), 20);
    assert_eq!(manual_block_percentage(9, 1), 80);
    assert_eq!(manual_block_percentage(0, 5), 20);
    assert_eq!(manual_block_percentage(3, 2), 60);
}

#[test]
fn command_line_options() {
    let cl = scan_args(&strings(&["tram", "--check-schedule", "--device", "/dev/sda2"]));
    assert!(cl.check_schedule);
    assert_eq!(cl.device, Some("/dev/sda2".to_string()));
    let cl = scan_args(&strings(&["tram", "--device"]));
    assert!(!cl.check_schedule);
    assert_eq!(cl.device, None);
    let cl = scan_args(&strings(&["tram", "--device", "--check-schedule", "--device", "b"]));
    assert!(!cl.check_schedule);
    assert_eq!(cl.device, Some("b".to_string()));
}

#[test]
fn menu_selection_past_the_end_shows_last_entry() {
    assert_eq!(menu_item_at(0), Menu::Snapshots);
    assert_eq!(menu_item_at(3), Menu::BrokenSnapshots);
    assert_eq!(menu_item_at(4), Menu::Settings);
    assert_eq!(menu_item_at(usize::MAX), Menu::Settings);
}

#[test]
fn main_window_rows_hold_date_time_and_type() {
    let g = sample_group();
    let (manual, scheduled) = main_snapshot_rows(g.get_snapshots());
    assert_eq!(manual, vec![strings(&["2026-01-01", "10:00:00"]), strings(&["2026-01-03", "08:00:00"])]);
    assert_eq!(scheduled, vec![strings(&["2026-01-02", "00:00:00", "daily"])]);
}
