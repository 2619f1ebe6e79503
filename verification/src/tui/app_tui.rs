//! The main window: which group is shown and how keys move through the menu.
use vstd::prelude::*;
use crate::btrfs_objects::group_snapshot::{GroupSnapshot, GroupSnapshotView, SnapshotType};
use crate::btrfs_objects::group::group_snapshot_views;
use crate::text::views;
use crate::tui::ui_states::{select_next_spec, select_previous_spec};

verus! {

/// The group to show, by index: the selected one where it exists,
/// otherwise the first group (which becomes the selection), or none when
/// there are no groups.
pub fn get_sel_group(selected_group: &mut Option<usize>, n_groups: usize) -> (r: Option<usize>)
    ensures
        match *old(selected_group) {
            Some(i) if i < n_groups => r == Some(i) && *final(selected_group) == *old(selected_group),
            _ => if n_groups > 0 {
                r == Some(0usize) && *final(selected_group) == Some(0usize)
            } else {
                r is None && *final(selected_group) == *old(selected_group)
            },
        },
{
    match *selected_group {
        Some(i) if i < n_groups => Some(i),
        _ => {
            if n_groups > 0 {
                *selected_group = Some(0);
                Some(0)
            } else {
                None
            }
        },
    }
}

/// A key, as far as the interface tells keys apart.
#[derive(Debug, Clone, Copy, PartialEq, Eq, Structural)]
pub enum Key {
    Char(char),
    Up,
    Down,
    Home,
    End,
    Esc,
    Other,
}

/// What a key press does in the main window.
#[derive(Debug, Clone, Copy, PartialEq, Eq, Structural)]
pub enum MenuAction {
    NavigateUp,
    NavigateDown,
    NavigateTop,
    NavigateBottom,
    Quit,
    Nothing,
}

/// The action of `key`: `k` or Up without modifiers moves up, `j` or Down
/// without modifiers moves down, `g` or Home goes to the top, `G` or End to
/// the bottom, and `q` or Esc quits.
pub open spec fn menu_action_spec(key: Key, no_modifiers: bool) -> MenuAction {
    if (key == Key::Char('k') || key == Key::Up) && no_modifiers {
        MenuAction::NavigateUp
    } else if (key == Key::Char('j') || key == Key::Down) && no_modifiers {
        MenuAction::NavigateDown
    } else if key == Key::Char('g') || key == Key::Home {
        MenuAction::NavigateTop
    } else if key == Key::Char('G') || key == Key::End {
        MenuAction::NavigateBottom
    } else if key == Key::Char('q') || key == Key::Esc {
        MenuAction::Quit
    } else {
        MenuAction::Nothing
    }
}

/// The action of pressing `key`, with or without modifiers.
pub fn menu_action(key: Key, no_modifiers: bool) -> (r: MenuAction)
    ensures
        r == menu_action_spec(key, no_modifiers),
        no_modifiers && (key == Key::Up || key == Key::Char('k')) ==> r == MenuAction::NavigateUp,
        no_modifiers && (key == Key::Down || key == Key::Char('j')) ==> r == MenuAction::NavigateDown,
        key == Key::Home || key == Key::Char('g') ==> r == MenuAction::NavigateTop,
        key == Key::End || key == Key::Char('G') ==> r == MenuAction::NavigateBottom,
        key == Key::Esc || key == Key::Char('q') ==> r == MenuAction::Quit,
        !no_modifiers ==> r != MenuAction::NavigateUp && r != MenuAction::NavigateDown,
{
    match key {
        Key::Char('k') if no_modifiers => MenuAction::NavigateUp,
        Key::Up if no_modifiers => MenuAction::NavigateUp,
        Key::Char('j') if no_modifiers => MenuAction::NavigateDown,
        Key::Down if no_modifiers => MenuAction::NavigateDown,
        Key::Char('g') | Key::Home => MenuAction::NavigateTop,
        Key::Char('G') | Key::End => MenuAction::NavigateBottom,
        Key::Char('q') | Key::Esc => MenuAction::Quit,
        _ => MenuAction::Nothing,
    }
}

/// `ratatui::widgets::ListState::select_previous` on a list whose selection
/// is `selected`: the previous item, saturating at 0, or `usize::MAX`
/// (the last item, once rendered) when nothing is selected.
#[verifier::external_body]
fn list_select_previous(selected: Option<usize>) -> (r: Option<usize>)
    ensures
        r == select_previous_spec(selected),
{
    let mut state = ratatui::widgets::ListState::default().with_selected(selected);
    state.select_previous();
    state.selected()
}

/// `ratatui::widgets::ListState::select_next` on a list whose selection is
/// `selected`: the next item, saturating at `usize::MAX`, or the first when
/// nothing is selected.
#[verifier::external_body]
fn list_select_next(selected: Option<usize>) -> (r: Option<usize>)
    ensures
        r == select_next_spec(selected),
{
    let mut state = ratatui::widgets::ListState::default().with_selected(selected);
    state.select_next();
    state.selected()
}

/// `ratatui::widgets::ListState::select_first`: the first item.
#[verifier::external_body]
fn list_select_first(selected: Option<usize>) -> (r: Option<usize>)
    ensures
        r == Some(0usize),
{
    let mut state = ratatui::widgets::ListState::default().with_selected(selected);
    state.select_first();
    state.selected()
}

/// `ratatui::widgets::ListState::select_last`: `usize::MAX`, which rendering
/// turns into the last item.
#[verifier::external_body]
fn list_select_last(selected: Option<usize>) -> (r: Option<usize>)
    ensures
        r == Some(usize::MAX),
{
    let mut state = ratatui::widgets::ListState::default().with_selected(selected);
    state.select_last();
    state.selected()
}

/// The menu selection after `action`, as the menu list state moves it;
/// quitting and doing nothing leave it as it is.
pub fn navigate_menu(selected: Option<usize>, action: MenuAction) -> (r: Option<usize>)
    ensures
        action == MenuAction::NavigateUp ==> r == select_previous_spec(selected),
        action == MenuAction::NavigateDown ==> r == select_next_spec(selected),
        action == MenuAction::NavigateTop ==> r == Some(0usize),
        action == MenuAction::NavigateBottom ==> r == Some(usize::MAX),
        action == MenuAction::Quit || action == MenuAction::Nothing ==> r == selected,
{
    match action {
        MenuAction::NavigateUp => list_select_previous(selected),
        MenuAction::NavigateDown => list_select_next(selected),
        MenuAction::NavigateTop => list_select_first(selected),
        MenuAction::NavigateBottom => list_select_last(selected),
        _ => selected,
    }
}

/// The cells of the main window's row of a group snapshot: its date and
/// time, and for a scheduled snapshot its type.
pub open spec fn main_row_cells_spec(gs: GroupSnapshotView) -> Seq<Seq<char>> {
    if gs.snapshot_type == SnapshotType::Manually {
        seq![gs.date, gs.time]
    } else {
        seq![gs.date, gs.time, gs.snapshot_type.name_spec()]
    }
}

/// The main window's rows of the group snapshots that satisfy
/// `manual == (type is Manually)`, in order.
pub open spec fn main_rows_spec(snaps: Seq<GroupSnapshotView>, manual: bool) -> Seq<Seq<Seq<char>>>
    decreases snaps.len(),
{
    if snaps.len() == 0 {
        Seq::empty()
    } else {
        let rest = main_rows_spec(snaps.drop_last(), manual);
        if (snaps.last().snapshot_type == SnapshotType::Manually) == manual {
            rest.push(main_row_cells_spec(snaps.last()))
        } else {
            rest
        }
    }
}

/// The texts of rows of cells.
pub open spec fn cells_views(rows: Seq<Vec<String>>) -> Seq<Seq<Seq<char>>> {
    rows.map_values(|r: Vec<String>| views(r@))
}

fn main_row_of(gs: &GroupSnapshot) -> (r: Vec<String>)
    ensures
        views(r@) == main_row_cells_spec(gs@),
{
    let mut cells: Vec<String> = Vec::new();
    cells.push(gs.get_date());
    cells.push(gs.get_time());
    if gs.get_type() != SnapshotType::Manually {
        cells.push(gs.get_type().to_string());
    }
    assert(views(cells@) =~= main_row_cells_spec(gs@));
    cells
}

/// The rows that the main window shows for a group with `snapshots`: those
/// of the manual snapshots, then those of the scheduled ones.
pub fn main_snapshot_rows(snapshots: &[GroupSnapshot]) -> (r: (Vec<Vec<String>>, Vec<Vec<String>>))
    ensures
        cells_views(r.0@) == main_rows_spec(group_snapshot_views(snapshots@), true),
        cells_views(r.1@) == main_rows_spec(group_snapshot_views(snapshots@), false),
{
    let mut manual: Vec<Vec<String>> = Vec::new();
    let mut scheduled: Vec<Vec<String>> = Vec::new();
    let ghost all = group_snapshot_views(snapshots@);
    let n = snapshots.len();
    let mut i: usize = 0;
    assert(all.take(0) =~= Seq::<GroupSnapshotView>::empty());
    assert(cells_views(manual@) =~= Seq::empty());
    assert(cells_views(scheduled@) =~= Seq::empty());
    while i < n
        invariant
            n == snapshots@.len(),
            i <= n,
            all == group_snapshot_views(snapshots@),
            cells_views(manual@) == main_rows_spec(all.take(i as int), true),
            cells_views(scheduled@) == main_rows_spec(all.take(i as int), false),
        decreases n - i,
    {
        let ghost m0 = cells_views(manual@);
        let ghost s0 = cells_views(scheduled@);
        proof {
            assert(all.take(i + 1).drop_last() =~= all.take(i as int));
            assert(all.take(i + 1).last() == snapshots@[i as int]@);
        }
        let row = main_row_of(&snapshots[i]);
        let ghost rv = views(row@);
        if snapshots[i].get_type() == SnapshotType::Manually {
            manual.push(row);
            assert(cells_views(manual@) =~= m0.push(rv));
        } else {
            scheduled.push(row);
            assert(cells_views(scheduled@) =~= s0.push(rv));
        }
        i = i + 1;
    }
    assert(all.take(n as int) =~= all);
    (manual, scheduled)
}

/// The arrow keys and the letters `k` and `j` are bound alike: pressed with
/// the same modifiers, Up and `k` give the same action, and so do Down and
/// `j`; without modifiers they move the menu up and down, with modifiers
/// they do not move it at all.
pub proof fn lemma_arrows_and_letters_agree(no_modifiers: bool)
    ensures
        menu_action_spec(Key::Up, no_modifiers) == menu_action_spec(Key::Char('k'), no_modifiers),
        menu_action_spec(Key::Down, no_modifiers) == menu_action_spec(Key::Char('j'), no_modifiers),
        no_modifiers ==> menu_action_spec(Key::Up, no_modifiers) == MenuAction::NavigateUp,
        no_modifiers ==> menu_action_spec(Key::Down, no_modifiers) == MenuAction::NavigateDown,
        !no_modifiers ==> menu_action_spec(Key::Up, no_modifiers) == MenuAction::Nothing,
        !no_modifiers ==> menu_action_spec(Key::Down, no_modifiers) == MenuAction::Nothing,
{
}

} // verus!
