//! The snapshots view: its two tables, how events move through them, and
//! how the screen is split between them.
use vstd::prelude::*;
use crate::btrfs_objects::group_snapshot::{
    GroupSnapshot, GroupSnapshotView, SnapshotType, snapshoted_subvolumes_spec, lemma_name_round_trip,
};
use crate::btrfs_objects::group::group_snapshot_views;
use crate::text::{join_spec, join_strings, views};
use crate::tui::ui_states::{select_next_spec, select_previous_spec};

verus! {

/// Which part of the snapshots view receives events.
#[derive(Debug, Clone, Copy, PartialEq, Eq, Structural)]
pub enum SnapshotFocus {
    ManualSnapshot,
    ScheduledSnapshot,
    DetailedInfo,
}

/// An event of the interface, after key bindings are applied.
#[derive(Debug, Clone, Copy, PartialEq, Eq, Structural)]
pub enum AppEvent {
    Up,
    Down,
    Left,
    Right,
    Top,
    Bottom,
    WindowUp,
    WindowDown,
    WindowLeft,
    WindowRight,
    Return,
    Confirm,
    Create,
    Delete,
}

/// A row of a snapshot table: the index of its group snapshot in the group,
/// and the text of its cells.
#[derive(Debug)]
pub struct SnapshotRow {
    pub index: usize,
    pub cells: Vec<String>,
}

/// The cells of the row of a group snapshot: date, time, (for scheduled
/// snapshots) type, and the snapshotted subvolumes separated by two spaces.
pub open spec fn row_cells_spec(gs: GroupSnapshotView) -> Seq<Seq<char>> {
    let subvols = join_spec(snapshoted_subvolumes_spec(gs.subvolume_snapshots), "  "@);
    if gs.snapshot_type == SnapshotType::Manually {
        seq![gs.date, gs.time, subvols]
    } else {
        seq![gs.date, gs.time, gs.snapshot_type.name_spec(), subvols]
    }
}

/// The rows of the group snapshots that satisfy `manual == (type is Manually)`,
/// in order, each with its index.
pub open spec fn rows_spec(snaps: Seq<GroupSnapshotView>, manual: bool) -> Seq<(int, Seq<Seq<char>>)>
    decreases snaps.len(),
{
    if snaps.len() == 0 {
        Seq::empty()
    } else {
        let rest = rows_spec(snaps.drop_last(), manual);
        if (snaps.last().snapshot_type == SnapshotType::Manually) == manual {
            rest.push((snaps.len() - 1, row_cells_spec(snaps.last())))
        } else {
            rest
        }
    }
}

/// Each row of a table shows the group snapshot it points to: the row of
/// index `k` points into `snaps`, at a snapshot of the table's kind, and its
/// cells begin with that snapshot's date and time; a scheduled row's third
/// cell is a name that parses back to that snapshot's own type, and a
/// manual row has no type cell.
pub open spec fn rows_show_their_snapshots(
    snaps: Seq<GroupSnapshotView>,
    manual: bool,
    rows: Seq<(int, Seq<Seq<char>>)>,
) -> bool {
    forall|k: int|
        0 <= k < rows.len() ==> {
            let (i, cells) = #[trigger] rows[k];
            &&& 0 <= i < snaps.len()
            &&& (snaps[i].snapshot_type == SnapshotType::Manually) == manual
            &&& cells.len() >= 2
            &&& cells[0] == snaps[i].date
            &&& cells[1] == snaps[i].time
            &&& manual ==> cells.len() == 3
            &&& !manual ==> cells.len() == 4 && SnapshotType::from_name_spec(cells[2]) == Some(
                snaps[i].snapshot_type,
            )
        }
}

/// The rows of both tables show the group snapshots they point to, in the
/// order of the group, and every group snapshot gets a row in the table of
/// its kind.
pub proof fn lemma_rows_show_their_snapshots(snaps: Seq<GroupSnapshotView>, manual: bool)
    ensures
        rows_show_their_snapshots(snaps, manual, rows_spec(snaps, manual)),
        forall|a: int, b: int|
            0 <= a < b < rows_spec(snaps, manual).len() ==> rows_spec(snaps, manual)[a].0 < rows_spec(
                snaps,
                manual,
            )[b].0,
        forall|i: int|
            0 <= i < snaps.len() && (snaps[i].snapshot_type == SnapshotType::Manually) == manual ==> exists|
                k: int,
            |
                0 <= k < rows_spec(snaps, manual).len() && #[trigger] rows_spec(snaps, manual)[k].0 == i,
    decreases snaps.len(),
{
    reveal_strlit("manually");
    if snaps.len() > 0 {
        let front = snaps.drop_last();
        lemma_rows_show_their_snapshots(front, manual);
        let rest = rows_spec(front, manual);
        let rows = rows_spec(snaps, manual);
        let last = snaps.last();
        lemma_name_round_trip(last.snapshot_type);
        assert forall|k: int| 0 <= k < rest.len() implies rest[k].0 < snaps.len() - 1 by {
            let (i, cells) = rest[k];
        }
        if (last.snapshot_type == SnapshotType::Manually) == manual {
            assert(rows == rest.push((snaps.len() - 1, row_cells_spec(last))));
            assert forall|k: int| 0 <= k < rows.len() implies {
                let (i, cells) = #[trigger] rows[k];
                &&& 0 <= i < snaps.len()
                &&& (snaps[i].snapshot_type == SnapshotType::Manually) == manual
                &&& cells.len() >= 2
                &&& cells[0] == snaps[i].date
                &&& cells[1] == snaps[i].time
                &&& manual ==> cells.len() == 3
                &&& !manual ==> cells.len() == 4 && SnapshotType::from_name_spec(cells[2]) == Some(
                    snaps[i].snapshot_type,
                )
            } by {
                if k < rest.len() {
                    assert(rows[k] == rest[k]);
                    assert(snaps[rest[k].0] == front[rest[k].0]);
                }
            }
            assert forall|i: int|
                0 <= i < snaps.len() && (snaps[i].snapshot_type == SnapshotType::Manually) == manual implies exists|
                    k: int,
                |
                    0 <= k < rows.len() && #[trigger] rows[k].0 == i by {
                if i < snaps.len() - 1 {
                    assert(front[i] == snaps[i]);
                    let k = choose|k: int| 0 <= k < rest.len() && #[trigger] rest[k].0 == i;
                    assert(rows[k] == rest[k]);
                } else {
                    assert(rows[rest.len() as int].0 == i);
                }
            }
        } else {
            assert(rows == rest);
            assert forall|k: int| 0 <= k < rows.len() implies {
                let (i, cells) = #[trigger] rows[k];
                &&& 0 <= i < snaps.len()
                &&& (snaps[i].snapshot_type == SnapshotType::Manually) == manual
                &&& cells.len() >= 2
                &&& cells[0] == snaps[i].date
                &&& cells[1] == snaps[i].time
                &&& manual ==> cells.len() == 3
                &&& !manual ==> cells.len() == 4 && SnapshotType::from_name_spec(cells[2]) == Some(
                    snaps[i].snapshot_type,
                )
            } by {
                assert(snaps[rest[k].0] == front[rest[k].0]);
            }
            assert forall|i: int|
                0 <= i < snaps.len() && (snaps[i].snapshot_type == SnapshotType::Manually) == manual implies exists|
                    k: int,
                |
                    0 <= k < rows.len() && #[trigger] rows[k].0 == i by {
                assert(i < snaps.len() - 1);
                assert(front[i] == snaps[i]);
            }
        }
    }
}

/// The view of a table row.
pub open spec fn row_view(r: SnapshotRow) -> (int, Seq<Seq<char>>) {
    (r.index as int, views(r.cells@))
}

/// The views of table rows.
pub open spec fn row_views(rows: Seq<SnapshotRow>) -> Seq<(int, Seq<Seq<char>>)> {
    rows.map_values(|r: SnapshotRow| row_view(r))
}

/// The indices of table rows.
pub open spec fn row_indices(rows: Seq<SnapshotRow>) -> Seq<usize> {
    rows.map_values(|r: SnapshotRow| r.index)
}

fn row_of(i: usize, gs: &GroupSnapshot) -> (r: SnapshotRow)
    ensures
        row_view(r) == (i as int, row_cells_spec(gs@)),
{
    let subvols = gs.get_snapshoted_subvolumes();
    let joined = join_strings(subvols.as_slice(), "  ");
    let mut cells: Vec<String> = Vec::new();
    cells.push(gs.get_date());
    cells.push(gs.get_time());
    if gs.get_type() != SnapshotType::Manually {
        cells.push(gs.get_type().to_string());
    }
    cells.push(joined);
    assert(views(cells@) =~= row_cells_spec(gs@));
    SnapshotRow { index: i, cells }
}

/// The rows of the manual-snapshot table and of the scheduled-snapshot
/// table for a group with `snapshots`.
pub fn snapshot_table_rows(snapshots: &[GroupSnapshot]) -> (r: (Vec<SnapshotRow>, Vec<SnapshotRow>))
    ensures
        row_views(r.0@) == rows_spec(group_snapshot_views(snapshots@), true),
        row_views(r.1@) == rows_spec(group_snapshot_views(snapshots@), false),
        rows_show_their_snapshots(group_snapshot_views(snapshots@), true, row_views(r.0@)),
        rows_show_their_snapshots(group_snapshot_views(snapshots@), false, row_views(r.1@)),
{
    proof {
        lemma_rows_show_their_snapshots(group_snapshot_views(snapshots@), true);
        lemma_rows_show_their_snapshots(group_snapshot_views(snapshots@), false);
    }
    let mut manual: Vec<SnapshotRow> = Vec::new();
    let mut scheduled: Vec<SnapshotRow> = Vec::new();
    let ghost all = group_snapshot_views(snapshots@);
    let n = snapshots.len();
    let mut i: usize = 0;
    assert(all.take(0) =~= Seq::<GroupSnapshotView>::empty());
    assert(row_views(manual@) =~= Seq::empty());
    assert(row_views(scheduled@) =~= Seq::empty());
    while i < n
        invariant
            n == snapshots@.len(),
            i <= n,
            all == group_snapshot_views(snapshots@),
            row_views(manual@) == rows_spec(all.take(i as int), true),
            row_views(scheduled@) == rows_spec(all.take(i as int), false),
        decreases n - i,
    {
        let ghost m0 = row_views(manual@);
        let ghost s0 = row_views(scheduled@);
        proof {
            assert(all.take(i + 1).drop_last() =~= all.take(i as int));
            assert(all.take(i + 1).last() == snapshots@[i as int]@);
            assert(all.take(i + 1).len() - 1 == i);
        }
        let row = row_of(i, &snapshots[i]);
        let ghost rv = row_view(row);
        if snapshots[i].get_type() == SnapshotType::Manually {
            manual.push(row);
            assert(row_views(manual@) =~= m0.push(rv));
        } else {
            scheduled.push(row);
            assert(row_views(scheduled@) =~= s0.push(rv));
        }
        i = i + 1;
    }
    assert(all.take(n as int) =~= all);
    (manual, scheduled)
}

/// `ratatui::widgets::TableState::select_previous` on a table whose
/// selection is `selected`: the previous row, saturating at 0, or
/// `usize::MAX` (the last row, once rendered) when nothing is selected.
#[verifier::external_body]
fn table_select_previous(selected: Option<usize>) -> (r: Option<usize>)
    ensures
        r == select_previous_spec(selected),
{
    let mut state = ratatui::widgets::TableState::default().with_selected(selected);
    state.select_previous();
    state.selected()
}

/// `ratatui::widgets::TableState::select_next` on a table whose selection
/// is `selected`: the next row, saturating at `usize::MAX`, or the first
/// when nothing is selected.
#[verifier::external_body]
fn table_select_next(selected: Option<usize>) -> (r: Option<usize>)
    ensures
        r == select_next_spec(selected),
{
    let mut state = ratatui::widgets::TableState::default().with_selected(selected);
    state.select_next();
    state.selected()
}

/// `ratatui::widgets::TableState::select_first`: the first row.
#[verifier::external_body]
fn table_select_first(selected: Option<usize>) -> (r: Option<usize>)
    ensures
        r == Some(0usize),
{
    let mut state = ratatui::widgets::TableState::default().with_selected(selected);
    state.select_first();
    state.selected()
}

/// `ratatui::widgets::TableState::select_last`: `usize::MAX`, which
/// rendering turns into the last row.
#[verifier::external_body]
fn table_select_last(selected: Option<usize>) -> (r: Option<usize>)
    ensures
        r == Some(usize::MAX),
{
    let mut state = ratatui::widgets::TableState::default().with_selected(selected);
    state.select_last();
    state.selected()
}

/// The focus and the row selections of the snapshots view.
#[derive(Debug, Clone, Copy, PartialEq, Eq, Structural)]
pub struct SnapshotTableState {
    pub focus: SnapshotFocus,
    pub manual_selected: Option<usize>,
    pub scheduled_selected: Option<usize>,
}

/// What the application is to do after an event in the snapshots view.
#[derive(Debug, Clone, Copy, PartialEq, Eq, Structural)]
pub enum SnapshotsAction {
    /// Nothing beyond the change of state.
    Nothing,
    /// Give the focus back to the menu.
    ReturnToMenu,
    /// Reload the tables.
    Refresh,
    /// Take a manual snapshot of the shown group, then reload the tables.
    CreateManualSnapshot,
    /// Delete the group snapshot at this index of the shown group, then
    /// reload the tables.
    DeleteSnapshot(usize),
}

/// The selection moved by `f` in the table that has the focus: the manual
/// table when it is focused, the scheduled table otherwise.
pub open spec fn move_selection(st: SnapshotTableState, f: spec_fn(Option<usize>) -> Option<usize>) -> SnapshotTableState {
    if st.focus == SnapshotFocus::ManualSnapshot {
        SnapshotTableState { manual_selected: f(st.manual_selected), ..st }
    } else {
        SnapshotTableState { scheduled_selected: f(st.scheduled_selected), ..st }
    }
}

/// The action of a delete request: the group snapshot of the selected row of
/// the focused table, where a group is shown and a row is selected. The
/// selected row is clamped to the number of manual rows in both tables.
pub open spec fn delete_action_spec(
    st: SnapshotTableState,
    has_group: bool,
    manual: Seq<usize>,
    scheduled: Seq<usize>,
) -> SnapshotsAction {
    if !has_group {
        SnapshotsAction::Refresh
    } else if st.focus == SnapshotFocus::ManualSnapshot && st.manual_selected is Some {
        let i = st.manual_selected->0;
        SnapshotsAction::DeleteSnapshot(manual[if i < manual.len() - 1 { i as int } else { manual.len() - 1 }])
    } else if st.focus == SnapshotFocus::ScheduledSnapshot && st.scheduled_selected is Some {
        let i = st.scheduled_selected->0;
        SnapshotsAction::DeleteSnapshot(scheduled[if i < manual.len() - 1 { i as int } else { manual.len() - 1 }])
    } else {
        SnapshotsAction::Refresh
    }
}

/// The state and action after `event`, where `has_group` says whether a
/// group is shown and `manual` and `scheduled` are the group snapshot
/// indices of the rows of the two tables.
pub open spec fn snapshot_event_spec(
    st: SnapshotTableState,
    event: AppEvent,
    has_group: bool,
    manual: Seq<usize>,
    scheduled: Seq<usize>,
) -> (SnapshotTableState, SnapshotsAction) {
    match event {
        AppEvent::Left | AppEvent::WindowLeft => (st, SnapshotsAction::ReturnToMenu),
        AppEvent::Return => if st.focus == SnapshotFocus::DetailedInfo {
            (SnapshotTableState { focus: SnapshotFocus::ManualSnapshot, ..st }, SnapshotsAction::Nothing)
        } else {
            (st, SnapshotsAction::ReturnToMenu)
        },
        AppEvent::Up => (move_selection(st, |s: Option<usize>| select_previous_spec(s)), SnapshotsAction::Nothing),
        AppEvent::Down => (move_selection(st, |s: Option<usize>| select_next_spec(s)), SnapshotsAction::Nothing),
        AppEvent::Top => (move_selection(st, |s: Option<usize>| Some(0usize)), SnapshotsAction::Nothing),
        AppEvent::Bottom => (move_selection(st, |s: Option<usize>| Some(usize::MAX)), SnapshotsAction::Nothing),
        AppEvent::WindowUp => if st.focus != SnapshotFocus::DetailedInfo {
            (SnapshotTableState { focus: SnapshotFocus::ManualSnapshot, ..st }, SnapshotsAction::Nothing)
        } else {
            (st, SnapshotsAction::Nothing)
        },
        AppEvent::WindowDown => if st.focus != SnapshotFocus::DetailedInfo {
            (SnapshotTableState { focus: SnapshotFocus::ScheduledSnapshot, ..st }, SnapshotsAction::Nothing)
        } else {
            (st, SnapshotsAction::Nothing)
        },
        AppEvent::Create => (st, if has_group {
            SnapshotsAction::CreateManualSnapshot
        } else {
            SnapshotsAction::Refresh
        }),
        AppEvent::Delete => (st, delete_action_spec(st, has_group, manual, scheduled)),
        _ => (st, SnapshotsAction::Nothing),
    }
}

/// The inputs on which handling `event` is defined: confirming is not, and
/// deleting from a shown group with a selected row needs a manual row and,
/// from the scheduled table, a scheduled row at the clamped index.
pub open spec fn snapshot_event_defined(
    st: SnapshotTableState,
    event: AppEvent,
    has_group: bool,
    manual_len: nat,
    scheduled_len: nat,
) -> bool {
    &&& event != AppEvent::Confirm
    &&& (event == AppEvent::Delete && has_group && st.focus == SnapshotFocus::ManualSnapshot
        && st.manual_selected is Some) ==> manual_len > 0
    &&& (event == AppEvent::Delete && has_group && st.focus == SnapshotFocus::ScheduledSnapshot
        && st.scheduled_selected is Some) ==> manual_len > 0 && (if st.scheduled_selected->0
        < manual_len - 1 {
        st.scheduled_selected->0 as int
    } else {
        manual_len - 1
    }) < scheduled_len
}

/// Handles `event` in the snapshots view: moves the focus or the selection
/// of the focused table, and says what the application is to do.
pub fn handle_events(
    state: &mut SnapshotTableState,
    event: AppEvent,
    has_group: bool,
    manual_rows: &[SnapshotRow],
    scheduled_rows: &[SnapshotRow],
) -> (r: SnapshotsAction)
    requires
        snapshot_event_defined(
            *old(state),
            event,
            has_group,
            manual_rows@.len(),
            scheduled_rows@.len(),
        ),
    ensures
        (*final(state), r) == snapshot_event_spec(
            *old(state),
            event,
            has_group,
            row_indices(manual_rows@),
            row_indices(scheduled_rows@),
        ),
        event == AppEvent::Delete ==> *final(state) == *old(state),
        event == AppEvent::Delete && has_group && old(state).focus == SnapshotFocus::ManualSnapshot
            && old(state).manual_selected is Some && old(state).manual_selected->0 < manual_rows@.len() ==> r
            == SnapshotsAction::DeleteSnapshot(manual_rows@[old(state).manual_selected->0 as int].index),
        event == AppEvent::Delete && has_group && old(state).focus == SnapshotFocus::ScheduledSnapshot
            && old(state).scheduled_selected is Some && old(state).scheduled_selected->0 < manual_rows@.len()
            && old(state).scheduled_selected->0 < scheduled_rows@.len() ==> r == SnapshotsAction::DeleteSnapshot(
            scheduled_rows@[old(state).scheduled_selected->0 as int].index,
        ),
        event == AppEvent::Delete && !has_group ==> r == SnapshotsAction::Refresh,
{
    let on_manual = state.focus == SnapshotFocus::ManualSnapshot;
    match event {
        AppEvent::Left | AppEvent::WindowLeft => SnapshotsAction::ReturnToMenu,
        AppEvent::Return => {
            if state.focus == SnapshotFocus::DetailedInfo {
                state.focus = SnapshotFocus::ManualSnapshot;
                SnapshotsAction::Nothing
            } else {
                SnapshotsAction::ReturnToMenu
            }
        },
        AppEvent::Up | AppEvent::Down | AppEvent::Top | AppEvent::Bottom => {
            let current = if on_manual {
                state.manual_selected
            } else {
                state.scheduled_selected
            };
            let moved = match event {
                AppEvent::Up => table_select_previous(current),
                AppEvent::Down => table_select_next(current),
                AppEvent::Top => table_select_first(current),
                _ => table_select_last(current),
            };
            if on_manual {
                state.manual_selected = moved;
            } else {
                state.scheduled_selected = moved;
            }
            SnapshotsAction::Nothing
        },
        AppEvent::WindowUp => {
            if state.focus != SnapshotFocus::DetailedInfo {
                state.focus = SnapshotFocus::ManualSnapshot;
            }
            SnapshotsAction::Nothing
        },
        AppEvent::WindowDown => {
            if state.focus != SnapshotFocus::DetailedInfo {
                state.focus = SnapshotFocus::ScheduledSnapshot;
            }
            SnapshotsAction::Nothing
        },
        AppEvent::Create => {
            if has_group {
                SnapshotsAction::CreateManualSnapshot
            } else {
                SnapshotsAction::Refresh
            }
        },
        AppEvent::Delete => {
            if !has_group {
                SnapshotsAction::Refresh
            } else if on_manual && state.manual_selected.is_some() {
                let i = state.manual_selected.unwrap();
                let last = manual_rows.len() - 1;
                let k = if i < last {
                    i
                } else {
                    last
                };
                SnapshotsAction::DeleteSnapshot(manual_rows[k].index)
            } else if state.focus == SnapshotFocus::ScheduledSnapshot && state.scheduled_selected.is_some() {
                let i = state.scheduled_selected.unwrap();
                let last = manual_rows.len() - 1;
                let k = if i < last {
                    i
                } else {
                    last
                };
                SnapshotsAction::DeleteSnapshot(scheduled_rows[k].index)
            } else {
                SnapshotsAction::Refresh
            }
        },
        _ => SnapshotsAction::Nothing,
    }
}

/// The selection of a table as it is rendered: none when the table is not
/// focused, the first row when it is focused with nothing selected.
pub fn selection_on_render(focused: bool, selected: Option<usize>) -> (r: Option<usize>)
    ensures
        !focused ==> r is None,
        focused && selected is None ==> r == Some(0usize),
        focused && selected is Some ==> r == selected,
{
    if !focused {
        None
    } else if selected.is_none() {
        table_select_first(selected)
    } else {
        selected
    }
}

/// Share of the height, in percent, given to the manual-snapshot table when
/// it has `l1` rows and the scheduled table `l2`: half when both are
/// empty, otherwise its share of the rows, kept between 20 and 80.
pub open spec fn manual_percentage_spec(l1: nat, l2: nat) -> u16 {
    if l1 == 0 && l2 == 0 {
        50
    } else {
        let p = l1 * 100 / (l1 + l2);
        if p < 20 {
            20
        } else if p > 80 {
            80
        } else {
            p as u16
        }
    }
}

/// Share of the height, in percent, given to the manual-snapshot table.
pub fn manual_block_percentage(l1: usize, l2: usize) -> (r: u16)
    requires
        l1 * 100 <= usize::MAX,
        l1 + l2 <= usize::MAX,
    ensures
        r == manual_percentage_spec(l1 as nat, l2 as nat),
        20 <= r <= 80 || r == 50,
{
    if l1 == 0 && l2 == 0 {
        50
    } else {
        let p = l1 * 100 / (l1 + l2);
        assert(p <= 100) by (nonlinear_arith)
            requires
                p == l1 * 100 / (l1 + l2),
                l1 + l2 > 0,
        ;
        let q = p as u16;
        if q < 20 {
            20
        } else if q > 80 {
            80
        } else {
            q
        }
    }
}

/// Deleting in the snapshots view deletes the group snapshot of the row
/// that is selected in the focused table, where that row exists (and, in
/// the scheduled table, lies within the manual rows' count, which bounds
/// the selection there too), and leaves focus and selections as they are.
pub proof fn lemma_delete_targets_selected_row(
    st: SnapshotTableState,
    manual: Seq<usize>,
    scheduled: Seq<usize>,
)
    ensures
        snapshot_event_spec(st, AppEvent::Delete, true, manual, scheduled).0 == st,
        st.focus == SnapshotFocus::ManualSnapshot && st.manual_selected is Some && st.manual_selected->0
            < manual.len() ==> snapshot_event_spec(st, AppEvent::Delete, true, manual, scheduled).1
            == SnapshotsAction::DeleteSnapshot(manual[st.manual_selected->0 as int]),
        st.focus == SnapshotFocus::ScheduledSnapshot && st.scheduled_selected is Some
            && st.scheduled_selected->0 < manual.len() && st.scheduled_selected->0 < scheduled.len()
            ==> snapshot_event_spec(st, AppEvent::Delete, true, manual, scheduled).1
            == SnapshotsAction::DeleteSnapshot(scheduled[st.scheduled_selected->0 as int]),
{
}

} // verus!
