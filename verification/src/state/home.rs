use vstd::prelude::*;
use crate::display::DisplayManager;
use crate::display::HardwareDisplay;
use crate::display::can_draw;
use crate::display::lines_view;
use crate::inputs::InputState;
use crate::inputs::rising_edge;
use crate::state::AppState;
use crate::state::drawn_any;
use crate::state::lines_of;
use crate::inputs::ACT_CENTER;
use crate::inputs::ACT_SET;
use crate::state::menu::MenuId;

verus! {

/// The welcome screen's text.
pub open spec fn home_lines() -> Seq<Seq<u8>> {
    lines_of(seq!["Cambridge Hackspace"@, "Welcome!"@])
}

/// CENTER or SET opens the main menu on its first entry.
pub open spec fn home_next(inputs: InputState) -> AppState {
    if rising_edge(inputs.act_curr, inputs.act_prev, ACT_CENTER) || rising_edge(
        inputs.act_curr,
        inputs.act_prev,
        ACT_SET,
    ) {
        AppState::Menu { id: MenuId::Main, selection: 0 }
    } else {
        AppState::Home
    }
}

/// Shows the welcome screen.
pub fn update<D: HardwareDisplay>(
    ui: &mut DisplayManager,
    display: &mut D,
    inputs: &InputState,
) -> (next: AppState)
    requires
        can_draw(old(ui)@, home_lines()),
    ensures
        next == home_next(*inputs),
        drawn_any(
            old(ui)@,
            final(ui)@,
            home_lines(),
            old(display).sent(),
            final(display).sent(),
        ),
{
    let lines = ["Cambridge Hackspace", "Welcome!"];
    assert(lines_view(&lines) =~= home_lines());
    let _ = ui.draw(display, &lines);

    if inputs.just_pressed_act(ACT_CENTER) || inputs.just_pressed_act(ACT_SET) {
        AppState::Menu { id: MenuId::Main, selection: 0 }
    } else {
        AppState::Home
    }
}

} // verus!
