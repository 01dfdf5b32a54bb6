use vstd::prelude::*;
use crate::display::DisplayManager;
use crate::display::HardwareDisplay;
use crate::display::can_draw;
use crate::display::lines_view;
use crate::state::AppState;
use crate::state::drawn_any;
use crate::state::lines_of;

verus! {

/// The warning blinks: blank for 200 polls, then the text for 200.
pub open spec fn voltage_danger_lines(ticks: u16, high: bool) -> Seq<Seq<u8>> {
    if ticks % 400 < 200 {
        lines_of(seq![""@, ""@])
    } else if high {
        lines_of(seq![" !!! DANGER !!!"@, "  HIGH VOLTAGE"@])
    } else {
        lines_of(seq![" !!! DANGER !!!"@, "  LOW VOLTAGE"@])
    }
}

/// The warning counts down, then the voltage test follows.
pub open spec fn voltage_danger_next(ticks: u16, high: bool) -> AppState {
    if ticks == 0 {
        AppState::VoltageTest
    } else {
        AppState::VoltageDanger { ticks: (ticks - 1) as u16, high }
    }
}

/// Warns that the supply voltage is out of range.
pub fn update<D: HardwareDisplay>(
    ticks: u16,
    high: bool,
    ui: &mut DisplayManager,
    display: &mut D,
) -> (next: AppState)
    requires
        can_draw(old(ui)@, voltage_danger_lines(ticks, high)),
    ensures
        next == voltage_danger_next(ticks, high),
        drawn_any(
            old(ui)@,
            final(ui)@,
            voltage_danger_lines(ticks, high),
            old(display).sent(),
            final(display).sent(),
        ),
{
    let show_text = (ticks % 400) >= 200;

    if !show_text {
        let lines = ["", ""];
        assert(lines_view(&lines) =~= voltage_danger_lines(ticks, high));
        let _ = ui.draw(display, &lines);
    } else if high {
        let lines = [" !!! DANGER !!!", "  HIGH VOLTAGE"];
        assert(lines_view(&lines) =~= voltage_danger_lines(ticks, high));
        let _ = ui.draw(display, &lines);
    } else {
        let lines = [" !!! DANGER !!!", "  LOW VOLTAGE"];
        assert(lines_view(&lines) =~= voltage_danger_lines(ticks, high));
        let _ = ui.draw(display, &lines);
    }

    if ticks == 0 {
        AppState::VoltageTest
    } else {
        AppState::VoltageDanger { ticks: ticks - 1, high }
    }
}

} // verus!
