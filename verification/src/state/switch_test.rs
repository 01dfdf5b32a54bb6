use vstd::prelude::*;
use crate::display::DisplayManager;
use crate::display::HardwareDisplay;
use crate::display::can_draw;
use crate::display::lines_view;
use crate::inputs::InputState;
use crate::inputs::rising_edge;
use crate::state::AppState;
use crate::state::drawn_any;
use crate::state::lines_of;
use crate::inputs::ACT_RESET;
use crate::state::menu::MenuId;

verus! {

/// The switch test's text: the heading over the list of pressed switches.
pub open spec fn switch_test_lines(switch_csv: &str) -> Seq<Seq<u8>> {
    lines_of(seq!["Active Switches:"@, switch_csv@])
}

/// RESET returns to the maintenance menu on its "Motor Test" entry.
pub open spec fn switch_test_next(inputs: InputState) -> AppState {
    if rising_edge(inputs.act_curr, inputs.act_prev, ACT_RESET) {
        AppState::Menu { id: MenuId::Maintenance, selection: 1 }
    } else {
        AppState::SwitchTest
    }
}

/// Shows which switches are pressed.
pub fn update<D: HardwareDisplay>(
    ui: &mut DisplayManager,
    display: &mut D,
    inputs: &InputState,
    switch_csv: &str,
) -> (next: AppState)
    requires
        can_draw(old(ui)@, switch_test_lines(switch_csv)),
    ensures
        next == switch_test_next(*inputs),
        drawn_any(
            old(ui)@,
            final(ui)@,
            switch_test_lines(switch_csv),
            old(display).sent(),
            final(display).sent(),
        ),
{
    let lines = ["Active Switches:", switch_csv];
    assert(lines_view(&lines) =~= switch_test_lines(switch_csv));
    let _ = ui.draw(display, &lines);

    if inputs.just_pressed_act(ACT_RESET) {
        AppState::Menu { id: MenuId::Maintenance, selection: 1 }
    } else {
        AppState::SwitchTest
    }
}

} // verus!
