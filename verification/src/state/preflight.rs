use vstd::prelude::*;
use crate::display::DisplayManager;
use crate::display::HardwareDisplay;
use crate::display::can_draw;
use crate::display::lines_view;
use crate::state::AppState;
use crate::state::drawn_any;
use crate::state::lines_of;

verus! {

/// The loading screen's text.
pub open spec fn preflight_lines() -> Seq<Seq<u8>> {
    lines_of(seq!["Cambridge Hackspace"@, "Loading..."@])
}

/// The loading screen counts down, then the home screen follows.
pub open spec fn preflight_next(ticks: u16) -> AppState {
    if ticks == 0 {
        AppState::Home
    } else {
        AppState::Preflight { ticks: (ticks - 1) as u16 }
    }
}

/// Shows the loading screen.
pub fn update<D: HardwareDisplay>(ticks: u16, ui: &mut DisplayManager, display: &mut D) -> (next:
    AppState)
    requires
        can_draw(old(ui)@, preflight_lines()),
    ensures
        next == preflight_next(ticks),
        drawn_any(
            old(ui)@,
            final(ui)@,
            preflight_lines(),
            old(display).sent(),
            final(display).sent(),
        ),
{
    let lines = ["Cambridge Hackspace", "Loading..."];
    assert(lines_view(&lines) =~= preflight_lines());
    let _ = ui.draw(display, &lines);

    if ticks == 0 {
        AppState::Home
    } else {
        AppState::Preflight { ticks: ticks - 1 }
    }
}

} // verus!
