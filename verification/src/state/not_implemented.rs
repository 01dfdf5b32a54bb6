use vstd::prelude::*;
use crate::display::DisplayManager;
use crate::display::HardwareDisplay;
use crate::display::can_draw;
use crate::display::lines_view;
use crate::inputs::InputState;
use crate::inputs::rising_edge;
use crate::state::AppState;
use crate::state::drawn_any;
use crate::state::lines_of;
use crate::inputs::ACT_RESET;
use crate::state::ReturnTarget;
use crate::state::target_state;

verus! {

/// The notice's text.
pub open spec fn not_implemented_lines() -> Seq<Seq<u8>> {
    lines_of(seq!["Notice:"@, "Not yet implemented."@])
}

/// The notice counts down and returns when the count runs out or on RESET.
pub open spec fn not_implemented_next(ticks: u16, prev: ReturnTarget, inputs: InputState) -> AppState {
    if ticks == 0 || rising_edge(inputs.act_curr, inputs.act_prev, ACT_RESET) {
        target_state(prev)
    } else {
        AppState::NotImplemented { ticks: (ticks - 1) as u16, prev }
    }
}

/// Shows that a feature is missing, for a while.
pub fn update<D: HardwareDisplay>(
    ticks: u16,
    prev: ReturnTarget,
    ui: &mut DisplayManager,
    display: &mut D,
    inputs: &InputState,
) -> (next: AppState)
    requires
        can_draw(old(ui)@, not_implemented_lines()),
    ensures
        next == not_implemented_next(ticks, prev, *inputs),
        drawn_any(
            old(ui)@,
            final(ui)@,
            not_implemented_lines(),
            old(display).sent(),
            final(display).sent(),
        ),
{
    let lines = ["Notice:", "Not yet implemented."];
    assert(lines_view(&lines) =~= not_implemented_lines());
    let _ = ui.draw(display, &lines);

    if ticks == 0 || inputs.just_pressed_act(ACT_RESET) {
        prev.to_state()
    } else {
        AppState::NotImplemented { ticks: ticks - 1, prev }
    }
}

} // verus!
