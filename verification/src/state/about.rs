use vstd::prelude::*;
use crate::display::DisplayManager;
use crate::display::HardwareDisplay;
use crate::display::can_draw;
use crate::display::lines_view;
use crate::inputs::InputState;
use crate::inputs::rising_edge;
use crate::state::AppState;
use crate::state::drawn_any;
use crate::state::lines_of;
use crate::inputs::ACT_RESET;
use crate::state::menu::MenuId;

verus! {

/// The about screen's text.
pub open spec fn about_lines() -> Seq<Seq<u8>> {
    lines_of(seq!["About"@, "Engineered by Cal for the Cambridge Hackspace"@])
}

/// RESET returns to the main menu on its "About" entry.
pub open spec fn about_next(inputs: InputState) -> AppState {
    if rising_edge(inputs.act_curr, inputs.act_prev, ACT_RESET) {
        AppState::Menu { id: MenuId::Main, selection: 2 }
    } else {
        AppState::About
    }
}

/// Shows who built the machine.
pub fn update<D: HardwareDisplay>(
    ui: &mut DisplayManager,
    display: &mut D,
    inputs: &InputState,
) -> (next: AppState)
    requires
        can_draw(old(ui)@, about_lines()),
    ensures
        next == about_next(*inputs),
        drawn_any(
            old(ui)@,
            final(ui)@,
            about_lines(),
            old(display).sent(),
            final(display).sent(),
        ),
{
    let lines = ["About", "Engineered by Cal for the Cambridge Hackspace"];
    assert(lines_view(&lines) =~= about_lines());
    let _ = ui.draw(display, &lines);

    if inputs.just_pressed_act(ACT_RESET) {
        AppState::Menu { id: MenuId::Main, selection: 2 }
    } else {
        AppState::About
    }
}

} // verus!
