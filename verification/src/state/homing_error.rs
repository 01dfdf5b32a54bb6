use vstd::prelude::*;
use crate::display::DisplayManager;
use crate::display::HardwareDisplay;
use crate::display::can_draw;
use crate::display::lines_view;
use crate::inputs::InputState;
use crate::inputs::rising_edge;
use crate::state::AppState;
use crate::state::drawn_any;
use crate::state::lines_of;
use crate::inputs::ACT_RESET;

verus! {

/// The homing error screen's text.
pub open spec fn homing_error_lines(msg: &'static str) -> Seq<Seq<u8>> {
    lines_of(seq!["Homing Error"@, msg@])
}

/// RESET returns to the home screen.
pub open spec fn homing_error_next(msg: &'static str, inputs: InputState) -> AppState {
    if rising_edge(inputs.act_curr, inputs.act_prev, ACT_RESET) {
        AppState::Home
    } else {
        AppState::HomingError { msg }
    }
}

/// Shows why homing stopped.
pub fn update<D: HardwareDisplay>(
    msg: &'static str,
    ui: &mut DisplayManager,
    display: &mut D,
    inputs: &InputState,
) -> (next: AppState)
    requires
        can_draw(old(ui)@, homing_error_lines(msg)),
    ensures
        next == homing_error_next(msg, *inputs),
        drawn_any(
            old(ui)@,
            final(ui)@,
            homing_error_lines(msg),
            old(display).sent(),
            final(display).sent(),
        ),
{
    let lines = ["Homing Error", msg];
    assert(lines_view(&lines) =~= homing_error_lines(msg));
    let _ = ui.draw(display, &lines);

    if inputs.just_pressed_act(ACT_RESET) {
        AppState::Home
    } else {
        AppState::HomingError { msg }
    }
}

} // verus!
