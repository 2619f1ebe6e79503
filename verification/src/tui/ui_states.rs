//! What the interface can focus and the entries of its menu.
use vstd::prelude::*;

verus! {

/// The part of the interface that receives key presses.
#[derive(Debug, Clone, Copy, PartialEq, Eq, Structural)]
pub enum Focus {
    Menu,
    ManualSnapshots,
    ScheduledSnapshots,
}

/// An entry of the main menu.
#[derive(Debug, Clone, Copy, PartialEq, Eq, Structural)]
pub enum Menu {
    Snapshots,
    Groups,
    Subvolumes,
    BrokenSnapshots,
    Settings,
}

impl Menu {
    /// The label of the entry, icon included.
    pub open spec fn label(self) -> Seq<char> {
        match self {
            Menu::Snapshots => " \u{f03e} Snapshots "@,
            Menu::Groups => " \u{eea8} Groups "@,
            Menu::Subvolumes => " \u{f0a16} Subvolumes "@,
            Menu::BrokenSnapshots => " \u{f073a} Broken Snapshots "@,
            Menu::Settings => " \u{f013} Settings "@,
        }
    }

    /// The label of the entry, icon included.
    pub fn as_ref(&self) -> (r: &'static str)
        ensures
            r@ == self.label(),
    {
        match self {
            Menu::Snapshots => " \u{f03e} Snapshots ",
            Menu::Groups => " \u{eea8} Groups ",
            Menu::Subvolumes => " \u{f0a16} Subvolumes ",
            Menu::BrokenSnapshots => " \u{f073a} Broken Snapshots ",
            Menu::Settings => " \u{f013} Settings ",
        }
    }

    /// The entry as it is displayed: its label.
    pub fn to_string(&self) -> (r: String)
        ensures
            r@ == self.label(),
    {
        String::from_str(self.as_ref())
    }
}

/// The entries of the main menu, in order.
pub open spec fn menu_items_spec() -> Seq<Menu> {
    seq![Menu::Snapshots, Menu::Groups, Menu::Subvolumes, Menu::BrokenSnapshots, Menu::Settings]
}

/// The entries of the main menu, in order.
pub fn menu_items() -> (r: Vec<Menu>)
    ensures
        r@ == menu_items_spec(),
{
    let mut v: Vec<Menu> = Vec::new();
    v.push(Menu::Snapshots);
    v.push(Menu::Groups);
    v.push(Menu::Subvolumes);
    v.push(Menu::BrokenSnapshots);
    v.push(Menu::Settings);
    assert(v@ =~= menu_items_spec());
    v
}

/// The menu entry shown for the selection `selected` of the menu list:
/// drawing the list moves a selection past the last entry (as selecting the
/// last one leaves it) back onto the last entry.
pub fn menu_item_at(selected: usize) -> (r: Menu)
    ensures
        r == menu_items_spec()[if selected < menu_items_spec().len() {
            selected as int
        } else {
            menu_items_spec().len() - 1
        }],
{
    let items = menu_items();
    let last = items.len() - 1;
    let i = if selected < last {
        selected
    } else {
        last
    };
    items[i]
}

/// The selection of a list or table moved one entry up: saturating at
/// the first, or `usize::MAX` (the last, once drawn) when nothing is
/// selected.
pub open spec fn select_previous_spec(selected: Option<usize>) -> Option<usize> {
    Some(
        match selected {
            Some(i) => if i == 0 {
                0usize
            } else {
                (i - 1) as usize
            },
            None => usize::MAX,
        },
    )
}

/// The selection of a list or table moved one entry down: saturating at
/// `usize::MAX`, or the first when nothing is selected.
pub open spec fn select_next_spec(selected: Option<usize>) -> Option<usize> {
    Some(
        match selected {
            Some(i) => if i == usize::MAX {
                usize::MAX
            } else {
                (i + 1) as usize
            },
            None => 0usize,
        },
    )
}

} // verus!
