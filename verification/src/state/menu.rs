use vstd::prelude::*;
use crate::display::DisplayManager;
use crate::display::HardwareDisplay;
use crate::display::can_draw;
use crate::display::lines_view;
use crate::inputs::InputState;
use crate::inputs::rising_edge;
use crate::inputs::ACT_CENTER;
use crate::inputs::ACT_RESET;
use crate::inputs::ACT_SET;
use crate::inputs::DIR_LEFT;
use crate::inputs::DIR_RIGHT;
use crate::state::AppState;
use crate::state::drawn_any;
use crate::state::lines_of;
use crate::state::homing::HomingTarget;

verus! {

/// The two menus.
#[derive(Clone, Copy, PartialEq, Eq, Structural, Debug)]
pub enum MenuId {
    Main,
    Maintenance,
}

/// The title of a menu.
pub open spec fn menu_header(id: MenuId) -> Seq<char> {
    match id {
        MenuId::Main => "Main Menu"@,
        MenuId::Maintenance => "Maintenance"@,
    }
}

/// The entries of a menu.
pub open spec fn menu_items(id: MenuId) -> Seq<Seq<char>> {
    match id {
        MenuId::Main => seq!["Wind a Coil"@, "Maintenance"@, "About"@],
        MenuId::Maintenance => seq![
            "Carriage Homing"@,
            "Motor Test"@,
            "Switch Test"@,
            "Voltage Test"@,
        ],
    }
}

/// The number of entries of a menu.
pub open spec fn menu_len(id: MenuId) -> nat {
    match id {
        MenuId::Main => 3,
        MenuId::Maintenance => 4,
    }
}

/// Where leaving a menu leads: the home screen from the main menu, the main menu (on its
/// maintenance entry) from the maintenance menu.
pub open spec fn menu_prev(id: MenuId) -> AppState {
    match id {
        MenuId::Main => AppState::Home,
        MenuId::Maintenance => AppState::Menu { id: MenuId::Main, selection: 1 },
    }
}

/// Where choosing entry `selection` of a menu leads; an entry past the end keeps the menu.
pub open spec fn menu_select(id: MenuId, selection: u8) -> AppState {
    match id {
        MenuId::Main => if selection == 0 {
            AppState::CarriageHoming {
                phase: 1,
                home_pos: 0,
                start_pos: 0,
                target: HomingTarget::WindCoil,
            }
        } else if selection == 1 {
            AppState::Menu { id: MenuId::Maintenance, selection: 0 }
        } else if selection == 2 {
            AppState::About
        } else {
            AppState::Menu { id, selection }
        },
        MenuId::Maintenance => if selection == 0 {
            AppState::CarriageHoming {
                phase: 1,
                home_pos: 0,
                start_pos: 0,
                target: HomingTarget::MaintenanceMenu,
            }
        } else if selection == 1 {
            AppState::MotorTest
        } else if selection == 2 {
            AppState::SwitchTest
        } else if selection == 3 {
            AppState::VoltageTest
        } else {
            AppState::Menu { id, selection }
        },
    }
}

impl MenuId {
    /// The title of the menu.
    pub fn header(&self) -> (h: &'static str)
        ensures
            h@ == menu_header(*self),
    {
        match self {
            MenuId::Main => "Main Menu",
            MenuId::Maintenance => "Maintenance",
        }
    }

    /// The entries of the menu.
    pub fn items(&self) -> (items: &'static [&'static str])
        ensures
            items@.len() == menu_len(*self),
            forall|i: int| 0 <= i < items@.len() ==> #[trigger] items@[i]@ == menu_items(*self)[i],
    {
        match self {
            MenuId::Main => &["Wind a Coil", "Maintenance", "About"],
            MenuId::Maintenance => &["Carriage Homing", "Motor Test", "Switch Test", "Voltage Test"],
        }
    }

    /// Where leaving the menu leads.
    pub fn prev(&self) -> (s: AppState)
        ensures
            s == menu_prev(*self),
    {
        match self {
            MenuId::Main => AppState::Home,
            MenuId::Maintenance => AppState::Menu { id: MenuId::Main, selection: 1 },
        }
    }

    /// Where choosing entry `selection` leads.
    pub fn select(&self, selection: u8) -> (s: AppState)
        ensures
            s == menu_select(*self, selection),
    {
        match self {
            MenuId::Main => match selection {
                0 => AppState::CarriageHoming {
                    phase: 1,
                    home_pos: 0,
                    start_pos: 0,
                    target: HomingTarget::WindCoil,
                },
                1 => AppState::Menu { id: MenuId::Maintenance, selection: 0 },
                2 => AppState::About,
                _ => AppState::Menu { id: *self, selection },
            },
            MenuId::Maintenance => match selection {
                0 => AppState::CarriageHoming {
                    phase: 1,
                    home_pos: 0,
                    start_pos: 0,
                    target: HomingTarget::MaintenanceMenu,
                },
                1 => AppState::MotorTest,
                2 => AppState::SwitchTest,
                3 => AppState::VoltageTest,
                _ => AppState::Menu { id: *self, selection },
            },
        }
    }
}

/// The selection after LEFT (previous entry, wrapping to the last) and then RIGHT (next
/// entry, wrapping to the first) were handled.
pub open spec fn menu_moved(id: MenuId, selection: u8, inputs: InputState) -> u8 {
    let last = (menu_len(id) - 1) as u8;
    let after_left = if rising_edge(inputs.dir_curr, inputs.dir_prev, DIR_LEFT) {
        if selection > 0 {
            (selection - 1) as u8
        } else {
            last
        }
    } else {
        selection
    };
    if rising_edge(inputs.dir_curr, inputs.dir_prev, DIR_RIGHT) {
        if after_left < last {
            (after_left + 1) as u8
        } else {
            0u8
        }
    } else {
        after_left
    }
}

/// The next state of a menu: RESET leaves it, SET or CENTER chooses the (moved) selection,
/// otherwise the menu stays with the moved selection.
pub open spec fn menu_next(id: MenuId, selection: u8, inputs: InputState) -> AppState {
    let moved = menu_moved(id, selection, inputs);
    if rising_edge(inputs.act_curr, inputs.act_prev, ACT_RESET) {
        menu_prev(id)
    } else if rising_edge(inputs.act_curr, inputs.act_prev, ACT_SET) || rising_edge(
        inputs.act_curr,
        inputs.act_prev,
        ACT_CENTER,
    ) {
        menu_select(id, moved)
    } else {
        AppState::Menu { id, selection: moved }
    }
}

/// The menu screen shows the title over the selected entry.
pub open spec fn menu_lines(id: MenuId, selection: u8) -> Seq<Seq<u8>> {
    lines_of(seq![menu_header(id), menu_items(id)[selection as int]])
}

/// Shows the menu and moves or follows its selection.
pub fn update<D: HardwareDisplay>(
    id: MenuId,
    selection: u8,
    ui: &mut DisplayManager,
    display: &mut D,
    inputs: &InputState,
) -> (next: AppState)
    requires
        selection < menu_len(id),
        can_draw(old(ui)@, menu_lines(id, selection)),
    ensures
        next == menu_next(id, selection, *inputs),
        drawn_any(
            old(ui)@,
            final(ui)@,
            menu_lines(id, selection),
            old(display).sent(),
            final(display).sent(),
        ),
{
    let items = id.items();
    let header = id.header();
    let lines = [header, items[selection as usize]];
    assert(lines_view(&lines) =~= menu_lines(id, selection));
    let _ = ui.draw(display, &lines);

    let mut new_sel = selection;

    if inputs.just_pressed_dir(DIR_LEFT) {
        if new_sel > 0 {
            new_sel -= 1;
        } else {
            new_sel = (items.len() - 1) as u8;
        }
    }

    if inputs.just_pressed_dir(DIR_RIGHT) {
        if new_sel < (items.len() - 1) as u8 {
            new_sel += 1;
        } else {
            new_sel = 0;
        }
    }

    if inputs.just_pressed_act(ACT_RESET) {
        id.prev()
    } else if inputs.just_pressed_act(ACT_SET) || inputs.just_pressed_act(ACT_CENTER) {
        id.select(new_sel)
    } else {
        AppState::Menu { id, selection: new_sel }
    }
}

/// Moving through a menu keeps the selection on one of its entries.
pub proof fn lemma_selection_stays_in_menu(id: MenuId, selection: u8, inputs: InputState)
    requires
        selection < menu_len(id),
    ensures
        menu_moved(id, selection, inputs) < menu_len(id),
        menu_next(id, selection, inputs) matches AppState::Menu { id: next_id, selection: s }
            ==> s < menu_len(next_id),
{
}

/// LEFT and RIGHT pressed in the same poll cancel out, whatever the entry, wrapping
/// included.
pub proof fn lemma_left_right_cancel(id: MenuId, selection: u8, inputs: InputState)
    requires
        selection < menu_len(id),
        rising_edge(inputs.dir_curr, inputs.dir_prev, DIR_LEFT),
        rising_edge(inputs.dir_curr, inputs.dir_prev, DIR_RIGHT),
    ensures
        menu_moved(id, selection, inputs) == selection,
{
}

} // verus!
