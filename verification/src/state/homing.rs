use vstd::prelude::*;
use vstd::utf8::encode_utf8;
use crate::display::DisplayManager;
use crate::display::HardwareDisplay;
use crate::display::can_draw;
use crate::display::lines_view;
use crate::inputs::InputState;
use crate::inputs::rising_edge;
use crate::inputs::ACT_RESET;
use crate::state::AppState;
use crate::state::ReturnTarget;
use crate::state::drawn_any;
use crate::state::lines_of;
use crate::state::menu::MenuId;
use crate::stepper::Direction;
use crate::stepper::MotorView;
use crate::stepper::Speed;
use crate::stepper::StepperMotor;
use crate::stepper::moving_set;
use crate::stepper::released_view;

verus! {

/// Where homing leads once the carriage is home.
#[derive(Clone, Copy, PartialEq, Eq, Structural, Debug)]
pub enum HomingTarget {
    MaintenanceMenu,
    WindCoil,
}

/// Steps the carriage may travel off the switch before the switch counts as stuck.
pub const BACKOFF_LIMIT: i32 = 2048;

/// The polls that the "not implemented" notice stays after homing for a coil.
pub const NOTICE_TICKS: u16 = 1200;

/// The label of a homing phase.
pub open spec fn phase_label(phase: u8) -> Seq<char> {
    if phase == 1 {
        "Phase 1: Seeking"@
    } else if phase == 2 {
        "Phase 2: BackOff"@
    } else if phase == 3 {
        "Phase 3: Homing "@
    } else if phase == 4 {
        "Phase 4: Return "@
    } else {
        "                "@
    }
}

/// The homing screen's text.
pub open spec fn homing_lines(phase: u8) -> Seq<Seq<u8>> {
    lines_of(seq!["Homing Carriage... Press RST to cancel..."@, phase_label(phase)])
}

/// `a / 2` rounded toward zero, as `i32` division does.
pub open spec fn half_toward_zero(a: int) -> int {
    if a >= 0 {
        a / 2
    } else {
        -((-a) / 2)
    }
}

/// A motor told to move at `speed` in `direction`.
pub open spec fn driven(m: MotorView, speed: Speed, direction: Direction) -> MotorView {
    moving_set(MotorView { speed, direction, ..m }, true)
}

/// A motor told to stop, holding its coils.
pub open spec fn halted(m: MotorView) -> MotorView {
    moving_set(m, false)
}

/// The state after homing is done.
pub open spec fn homing_done(target: HomingTarget) -> AppState {
    match target {
        HomingTarget::MaintenanceMenu => AppState::Menu { id: MenuId::Maintenance, selection: 0 },
        HomingTarget::WindCoil => AppState::NotImplemented {
            ticks: NOTICE_TICKS,
            prev: ReturnTarget::Menu(MenuId::Main, 0),
        },
    }
}

/// One poll of homing: the next state and the spindle and traverse settings afterwards.
///
/// RESET cancels and releases both motors. A stop on the way holds the traverse's coils;
/// leaving homing releases both motors. Phase 1 drives the carriage backward fast until
/// the limit switch closes and records where; phase 2 drives it forward slowly until the
/// switch opens (giving up once it has travelled 2048 steps) and takes that as home;
/// phase 3 drives it backward slowly until the switch closes again and moves home on, away
/// from that point, by half the gap between the two switch edges; phase 4 drives it to home
/// at moderate speed and releases both motors there.
pub open spec fn homing_step(
    phase: u8,
    home_pos: i32,
    start_pos: i32,
    target: HomingTarget,
    inputs: InputState,
    limit_switch_pressed: bool,
    spindle: MotorView,
    traverse: MotorView,
) -> (AppState, MotorView, MotorView) {
    let stay = |p: u8, h: i32, s: i32|
        AppState::CarriageHoming { phase: p, home_pos: h, start_pos: s, target };
    if rising_edge(inputs.act_curr, inputs.act_prev, ACT_RESET) {
        (
            AppState::HomingError { msg: "Canceled!" },
            released_view(spindle),
            released_view(traverse),
        )
    } else if phase == 1 {
        if limit_switch_pressed {
            (stay(2, home_pos, traverse.position), spindle, halted(traverse))
        } else {
            (
                stay(1, home_pos, start_pos),
                spindle,
                driven(traverse, Speed::Fast, Direction::Backward),
            )
        }
    } else if phase == 2 {
        if !limit_switch_pressed {
            (stay(3, traverse.position, start_pos), spindle, halted(traverse))
        } else if traverse.position - start_pos >= BACKOFF_LIMIT || start_pos - traverse.position
            >= BACKOFF_LIMIT {
            (
                AppState::HomingError { msg: "Limit switch malfunction!" },
                released_view(spindle),
                released_view(traverse),
            )
        } else {
            (
                stay(2, home_pos, start_pos),
                spindle,
                driven(traverse, Speed::Slow, Direction::Forward),
            )
        }
    } else if phase == 3 {
        if limit_switch_pressed {
            let home = home_pos + half_toward_zero(home_pos - traverse.position);
            (stay(4, home as i32, start_pos), spindle, halted(traverse))
        } else {
            (
                stay(3, home_pos, start_pos),
                spindle,
                driven(traverse, Speed::Slow, Direction::Backward),
            )
        }
    } else if phase == 4 {
        if traverse.position == home_pos {
            (homing_done(target), released_view(spindle), released_view(traverse))
        } else if traverse.position < home_pos {
            (
                stay(4, home_pos, start_pos),
                spindle,
                driven(traverse, Speed::Moderate, Direction::Forward),
            )
        } else {
            (
                stay(4, home_pos, start_pos),
                spindle,
                driven(traverse, Speed::Moderate, Direction::Backward),
            )
        }
    } else {
        (stay(phase, home_pos, start_pos), spindle, traverse)
    }
}

/// The position arithmetic of one poll of homing stays within `i32`.
pub open spec fn homing_in_range(
    phase: u8,
    home_pos: i32,
    start_pos: i32,
    inputs: InputState,
    limit_switch_pressed: bool,
    traverse: MotorView,
) -> bool {
    !rising_edge(inputs.act_curr, inputs.act_prev, ACT_RESET) ==> {
        &&& (phase == 2 && limit_switch_pressed) ==> i32::MIN < traverse.position - start_pos
            <= i32::MAX
        &&& (phase == 3 && limit_switch_pressed) ==> {
            &&& i32::MIN <= home_pos - traverse.position <= i32::MAX
            &&& i32::MIN <= home_pos + half_toward_zero(home_pos - traverse.position) <= i32::MAX
        }
    }
}

/// Runs one poll of carriage homing against the limit switch.
pub fn update<D: HardwareDisplay, S: StepperMotor, T: StepperMotor>(
    phase: u8,
    home_pos: i32,
    start_pos: i32,
    target: HomingTarget,
    ui: &mut DisplayManager,
    display: &mut D,
    inputs: &InputState,
    limit_switch_pressed: bool,
    spindle: &mut S,
    traverse: &mut T,
) -> (next: AppState)
    requires
        can_draw(old(ui)@, homing_lines(phase)),
        homing_in_range(phase, home_pos, start_pos, *inputs, limit_switch_pressed, old(traverse).motor()),
    ensures
        (next, final(spindle).motor(), final(traverse).motor()) == homing_step(
            phase,
            home_pos,
            start_pos,
            target,
            *inputs,
            limit_switch_pressed,
            old(spindle).motor(),
            old(traverse).motor(),
        ),
        drawn_any(
            old(ui)@,
            final(ui)@,
            homing_lines(phase),
            old(display).sent(),
            final(display).sent(),
        ),
{
    let phase_str = match phase {
        1 => "Phase 1: Seeking",
        2 => "Phase 2: BackOff",
        3 => "Phase 3: Homing ",
        4 => "Phase 4: Return ",
        _ => "                ",
    };
    let lines = ["Homing Carriage... Press RST to cancel...", phase_str];
    assert(lines_view(&lines) =~= homing_lines(phase));
    let _ = ui.draw(display, &lines);

    if inputs.just_pressed_act(ACT_RESET) {
        spindle.release();
        traverse.release();
        return AppState::HomingError { msg: "Canceled!" };
    }

    let mut next_phase = phase;
    let mut next_home = home_pos;
    let mut next_start = start_pos;

    match phase {
        1 => {
            if limit_switch_pressed {
                traverse.set_moving(false);
                next_phase = 2;
                next_start = traverse.position();
            } else {
                traverse.set_speed(Speed::Fast);
                traverse.set_direction(Direction::Backward);
                traverse.set_moving(true);
            }
        },
        2 => {
            if !limit_switch_pressed {
                traverse.set_moving(false);
                next_phase = 3;
                next_home = traverse.position();
            } else {
                let offset = traverse.position() - start_pos;
                let traveled = if offset < 0 {
                    -offset
                } else {
                    offset
                };
                if traveled >= 2048 {
                    spindle.release();
                    traverse.release();
                    return AppState::HomingError { msg: "Limit switch malfunction!" };
                }
                traverse.set_speed(Speed::Slow);
                traverse.set_direction(Direction::Forward);
                traverse.set_moving(true);
            }
        },
        3 => {
            if limit_switch_pressed {
                traverse.set_moving(false);
                let current = traverse.position();
                let diff = next_home - current;
                next_home = next_home + (diff / 2);
                next_phase = 4;
            } else {
                traverse.set_speed(Speed::Slow);
                traverse.set_direction(Direction::Backward);
                traverse.set_moving(true);
            }
        },
        4 => {
            let current = traverse.position();
            if current == next_home {
                spindle.release();
                traverse.release();
                return match target {
                    HomingTarget::MaintenanceMenu => AppState::Menu {
                        id: MenuId::Maintenance,
                        selection: 0,
                    },
                    HomingTarget::WindCoil => AppState::NotImplemented {
                        ticks: 1200,
                        prev: ReturnTarget::Menu(MenuId::Main, 0),
                    },
                };
            } else {
                traverse.set_speed(Speed::Moderate);
                if current < next_home {
                    traverse.set_direction(Direction::Forward);
                } else {
                    traverse.set_direction(Direction::Backward);
                }
                traverse.set_moving(true);
            }
        },
        _ => {},
    }

    AppState::CarriageHoming {
        phase: next_phase,
        home_pos: next_home,
        start_pos: next_start,
        target,
    }
}

/// Homing releases both motors exactly when it ends: a poll that leaves homing releases
/// both, and a poll that stays leaves the spindle as it was and never releases the traverse.
pub proof fn lemma_release_exactly_on_exit(
    phase: u8,
    home_pos: i32,
    start_pos: i32,
    target: HomingTarget,
    inputs: InputState,
    limit_switch_pressed: bool,
    spindle: MotorView,
    traverse: MotorView,
)
    ensures
        ({
            let (next, s, t) = homing_step(
                phase,
                home_pos,
                start_pos,
                target,
                inputs,
                limit_switch_pressed,
                spindle,
                traverse,
            );
            &&& !(next is CarriageHoming) ==> s.released && !s.moving && t.released && !t.moving
            &&& next is CarriageHoming ==> s == spindle && (t.released ==> traverse.released)
            &&& next matches AppState::CarriageHoming { target: kept, .. } ==> kept == target
        }),
{
}

} // verus!
