//! The screens of the user interface. Each screen draws itself and returns the next state
//! from the inputs of one poll.
pub mod about;
pub mod home;
pub mod homing;
pub mod homing_error;
pub mod menu;
pub mod motor_test;
pub mod not_implemented;
pub mod preflight;
pub mod switch_test;
pub mod voltage_danger;
pub mod voltage_test;

use vstd::prelude::*;
use vstd::utf8::encode_utf8;
use crate::display::DisplayManager;
use crate::display::DisplayState;
use crate::display::DisplayCalls;
use crate::display::HardwareDisplay;
use crate::display::can_draw;
use crate::display::drawn;
use crate::inputs::InputState;
use crate::inputs::ACT_CENTER;
use crate::inputs::ACT_SET;
use crate::inputs::DIR_DOWN;
use crate::inputs::DIR_LEFT;
use crate::inputs::DIR_RIGHT;
use crate::inputs::DIR_UP;
use crate::inputs::ACT_RESET;
use crate::stepper::Direction;
use crate::stepper::Speed;
use crate::stepper::ticks_for;
use crate::stepper::MotorView;
use crate::stepper::StepperMotor;
use crate::state::homing::HomingTarget;
use crate::state::menu::MenuId;

verus! {

/// Where a screen returns to.
#[derive(Clone, Copy, PartialEq, Eq, Debug)]
pub enum ReturnTarget {
    Home,
    Menu(MenuId, u8),
}

/// The screen shown and its data.
#[derive(Clone, Copy, PartialEq, Eq, Debug)]
pub enum AppState {
    Preflight { ticks: u16 },
    Home,
    Menu { id: MenuId, selection: u8 },
    NotImplemented { ticks: u16, prev: ReturnTarget },
    About,
    SwitchTest,
    VoltageTest,
    MotorTest,
    CarriageHoming { phase: u8, home_pos: i32, start_pos: i32, target: HomingTarget },
    HomingError { msg: &'static str },
    VoltageDanger { ticks: u16, high: bool },
}

/// The state that a return target names.
pub open spec fn target_state(t: ReturnTarget) -> AppState {
    match t {
        ReturnTarget::Home => AppState::Home,
        ReturnTarget::Menu(id, sel) => AppState::Menu { id, selection: sel },
    }
}

/// The UTF-8 bytes of each text.
pub open spec fn lines_of(texts: Seq<Seq<char>>) -> Seq<Seq<u8>> {
    texts.map_values(|t: Seq<char>| encode_utf8(t))
}

/// `w` is a state, and `after` the display calls, that one draw of `lines` from `v` on a
/// display that had received `before` leaves behind, whether or not every call succeeded.
pub open spec fn drawn_any(
    v: DisplayState,
    w: DisplayState,
    lines: Seq<Seq<u8>>,
    before: DisplayCalls,
    after: DisplayCalls,
) -> bool {
    drawn(v, w, lines, true, before, after) || drawn(v, w, lines, false, before, after)
}

impl ReturnTarget {
    /// The state to return to.
    pub fn to_state(&self) -> (s: AppState)
        ensures
            s == target_state(*self),
    {
        match self {
            ReturnTarget::Home => AppState::Home,
            ReturnTarget::Menu(id, sel) => AppState::Menu { id: *id, selection: *sel },
        }
    }
}

impl AppState {
    /// The loading screen with its countdown of 100 polls.
    pub fn initial() -> (s: Self)
        ensures
            s == (AppState::Preflight { ticks: 100 }),
    {
        AppState::Preflight { ticks: 100 }
    }
}

/// One poll of the interface from `state`: the next state and the spindle and traverse
/// settings afterwards.
pub open spec fn app_step(
    state: AppState,
    inputs: InputState,
    voltage_mv: u16,
    limit_switch_pressed: bool,
    spindle: MotorView,
    traverse: MotorView,
) -> (AppState, MotorView, MotorView) {
    match state {
        AppState::Preflight { ticks } => (preflight::preflight_next(ticks), spindle, traverse),
        AppState::Home => (home::home_next(inputs), spindle, traverse),
        AppState::Menu { id, selection } => (
            menu::menu_next(id, selection, inputs),
            spindle,
            traverse,
        ),
        AppState::NotImplemented { ticks, prev } => (
            not_implemented::not_implemented_next(ticks, prev, inputs),
            spindle,
            traverse,
        ),
        AppState::About => (about::about_next(inputs), spindle, traverse),
        AppState::SwitchTest => (switch_test::switch_test_next(inputs), spindle, traverse),
        AppState::VoltageTest => (voltage_test::voltage_test_next(inputs), spindle, traverse),
        AppState::MotorTest => (
            motor_test::motor_test_next(inputs),
            motor_test::tested_spindle(spindle, inputs),
            motor_test::tested_traverse(spindle, traverse, inputs),
        ),
        AppState::CarriageHoming { phase, home_pos, start_pos, target } => homing::homing_step(
            phase,
            home_pos,
            start_pos,
            target,
            inputs,
            limit_switch_pressed,
            spindle,
            traverse,
        ),
        AppState::HomingError { msg } => (
            homing_error::homing_error_next(msg, inputs),
            spindle,
            traverse,
        ),
        AppState::VoltageDanger { ticks, high } => (
            voltage_danger::voltage_danger_next(ticks, high),
            spindle,
            traverse,
        ),
    }
}

/// The text that the screen of `state` shows during a poll.
pub open spec fn app_lines(
    state: AppState,
    inputs: InputState,
    switch_csv: &str,
    voltage_mv: u16,
    spindle: MotorView,
    traverse: MotorView,
) -> Seq<Seq<u8>> {
    match state {
        AppState::Preflight { .. } => preflight::preflight_lines(),
        AppState::Home => home::home_lines(),
        AppState::Menu { id, selection } => menu::menu_lines(id, selection),
        AppState::NotImplemented { .. } => not_implemented::not_implemented_lines(),
        AppState::About => about::about_lines(),
        AppState::SwitchTest => switch_test::switch_test_lines(switch_csv),
        AppState::VoltageTest => voltage_test::voltage_test_lines(voltage_mv),
        AppState::MotorTest => motor_test::motor_test_lines(spindle, traverse, inputs),
        AppState::CarriageHoming { phase, .. } => homing::homing_lines(phase),
        AppState::HomingError { msg } => homing_error::homing_error_lines(msg),
        AppState::VoltageDanger { ticks, high } => voltage_danger::voltage_danger_lines(ticks, high),
    }
}

/// The conditions that a poll from `state` needs beyond drawing: a menu selection within its
/// menu, and homing arithmetic within `i32`.
pub open spec fn app_in_range(
    state: AppState,
    inputs: InputState,
    limit_switch_pressed: bool,
    traverse: MotorView,
) -> bool {
    match state {
        AppState::Menu { id, selection } => selection < menu::menu_len(id),
        AppState::CarriageHoming { phase, home_pos, start_pos, .. } => homing::homing_in_range(
            phase,
            home_pos,
            start_pos,
            inputs,
            limit_switch_pressed,
            traverse,
        ),
        _ => true,
    }
}

impl AppState {
    /// Runs one poll of the screen of this state and returns the next state.
    pub fn update<D: HardwareDisplay, S: StepperMotor, T: StepperMotor>(
        &self,
        ui: &mut DisplayManager,
        display: &mut D,
        inputs: &InputState,
        switch_csv: &str,
        voltage_mv: u16,
        limit_switch_pressed: bool,
        spindle: &mut S,
        traverse: &mut T,
    ) -> (next: AppState)
        requires
            can_draw(
                old(ui)@,
                app_lines(*self, *inputs, switch_csv, voltage_mv, old(spindle).motor(), old(traverse).motor()),
            ),
            app_in_range(*self, *inputs, limit_switch_pressed, old(traverse).motor()),
        ensures
            (next, final(spindle).motor(), final(traverse).motor()) == app_step(
                *self,
                *inputs,
                voltage_mv,
                limit_switch_pressed,
                old(spindle).motor(),
                old(traverse).motor(),
            ),
            drawn_any(
                old(ui)@,
                final(ui)@,
                app_lines(*self, *inputs, switch_csv, voltage_mv, old(spindle).motor(), old(traverse).motor()),
                old(display).sent(),
                final(display).sent(),
            ),
    {
        match self {
            AppState::Preflight { ticks } => preflight::update(*ticks, ui, display),
            AppState::Home => home::update(ui, display, inputs),
            AppState::Menu { id, selection } => menu::update(*id, *selection, ui, display, inputs),
            AppState::NotImplemented { ticks, prev } => {
                not_implemented::update(*ticks, *prev, ui, display, inputs)
            },
            AppState::About => about::update(ui, display, inputs),
            AppState::SwitchTest => switch_test::update(ui, display, inputs, switch_csv),
            AppState::VoltageTest => voltage_test::update(ui, display, inputs, voltage_mv),
            AppState::MotorTest => motor_test::update(ui, display, inputs, spindle, traverse),
            AppState::CarriageHoming { phase, home_pos, start_pos, target } => homing::update(
                *phase,
                *home_pos,
                *start_pos,
                *target,
                ui,
                display,
                inputs,
                limit_switch_pressed,
                spindle,
                traverse,
            ),
            AppState::HomingError { msg } => homing_error::update(*msg, ui, display, inputs),
            AppState::VoltageDanger { ticks, high } => voltage_danger::update(
                *ticks,
                *high,
                ui,
                display,
            ),
        }
    }
}

/// A state whose menu selections (shown or to return to) lie within their menus.
pub open spec fn state_valid(state: AppState) -> bool {
    match state {
        AppState::Menu { id, selection } => selection < menu::menu_len(id),
        AppState::NotImplemented { prev: ReturnTarget::Menu(id, selection), .. } => selection
            < menu::menu_len(id),
        _ => true,
    }
}

/// Every poll from a valid state leads to a valid state, starting from the initial one.
pub proof fn lemma_polls_keep_state_valid(
    state: AppState,
    inputs: InputState,
    voltage_mv: u16,
    limit_switch_pressed: bool,
    spindle: MotorView,
    traverse: MotorView,
)
    requires
        state_valid(state),
    ensures
        state_valid(AppState::Preflight { ticks: 100 }),
        state_valid(
            app_step(state, inputs, voltage_mv, limit_switch_pressed, spindle, traverse).0,
        ),
{
    if let AppState::Menu { id, selection } = state {
        menu::lemma_selection_stays_in_menu(id, selection, inputs);
    }
}


/// Phase 2 of homing (backing off the closed switch) gives up after 2048 steps either way:
/// with the switch still closed and no RESET, a traverse 2048 or more steps from where the
/// switch first closed ends homing with "Limit switch malfunction!" and both motors stopped
/// and released; closer than that, homing stays in phase 2 and the traverse keeps backing off
/// forward at slow speed, the spindle untouched.
pub proof fn lemma_backoff_gives_up_after_2048_steps(
    home_pos: i32,
    start_pos: i32,
    target: HomingTarget,
    inputs: InputState,
    voltage_mv: u16,
    spindle: MotorView,
    traverse: MotorView,
)
    requires
        !((inputs.act_curr & ACT_RESET) != 0 && (inputs.act_prev & ACT_RESET) == 0),
    ensures
        ({
            let state = AppState::CarriageHoming { phase: 2, home_pos, start_pos, target };
            let (next, s, t) = app_step(state, inputs, voltage_mv, true, spindle, traverse);
            &&& (traverse.position - start_pos >= 2048 || start_pos - traverse.position >= 2048)
                ==> next == AppState::HomingError { msg: "Limit switch malfunction!" } && s
                == MotorView { moving: false, released: true, ..spindle } && t == MotorView {
                moving: false,
                released: true,
                ..traverse
            }
            &&& -2048 < traverse.position - start_pos < 2048 ==> next == state && s == spindle && t
                == MotorView {
                speed: Speed::Slow,
                direction: Direction::Forward,
                moving: true,
                released: false,
                ..traverse
            }
        }),
{
}

/// A menu poll in which no action button was newly pressed (every action bit set now was set
/// before, as while a button stays held) stays in the same menu on one of its entries and
/// leaves the motors alone; with no direction button newly pressed either, the selection
/// stays too.
pub proof fn lemma_held_buttons_keep_the_menu(
    id: MenuId,
    selection: u8,
    inputs: InputState,
    voltage_mv: u16,
    limit_switch_pressed: bool,
    spindle: MotorView,
    traverse: MotorView,
)
    requires
        selection < menu::menu_len(id),
        forall|m: u8| !((#[trigger] (inputs.act_curr & m)) != 0 && (inputs.act_prev & m) == 0),
    ensures
        ({
            let state = AppState::Menu { id, selection };
            let (next, s, t) = app_step(
                state,
                inputs,
                voltage_mv,
                limit_switch_pressed,
                spindle,
                traverse,
            );
            &&& next matches AppState::Menu { id: next_id, selection: next_sel } && next_id == id
                && next_sel < menu::menu_len(id)
            &&& s == spindle && t == traverse
            &&& (forall|m: u8|
                !((#[trigger] (inputs.dir_curr & m)) != 0 && (inputs.dir_prev & m) == 0)) ==> next
                == state
        }),
{
    assert(!((inputs.act_curr & 4u8) != 0 && (inputs.act_prev & 4u8) == 0));
    assert(!((inputs.act_curr & 2u8) != 0 && (inputs.act_prev & 2u8) == 0));
    assert(!((inputs.act_curr & 1u8) != 0 && (inputs.act_prev & 1u8) == 0));
    menu::lemma_selection_stays_in_menu(id, selection, inputs);
    if forall|m: u8| !((#[trigger] (inputs.dir_curr & m)) != 0 && (inputs.dir_prev & m) == 0) {
        assert(!((inputs.dir_curr & 4u8) != 0 && (inputs.dir_prev & 4u8) == 0));
        assert(!((inputs.dir_curr & 8u8) != 0 && (inputs.dir_prev & 8u8) == 0));
        assert(!((inputs.dir_curr & 1u8) != 0 && (inputs.dir_prev & 1u8) == 0));
        assert(!((inputs.dir_curr & 2u8) != 0 && (inputs.dir_prev & 2u8) == 0));
    }
}

/// In the motor test a CENTER press gives both motors one new speed, one step slower than the
/// spindle's (more ticks per step), the slowest wrapping round to the fastest, so that three
/// presses come back to the spindle's speed; without a CENTER press the speeds stay.
pub proof fn lemma_center_cycles_the_speed(
    inputs: InputState,
    voltage_mv: u16,
    limit_switch_pressed: bool,
    spindle: MotorView,
    traverse: MotorView,
)
    ensures
        ({
            let center = (inputs.act_curr & ACT_CENTER) != 0 && (inputs.act_prev & ACT_CENTER)
                == 0;
            let step = |sp: MotorView, tr: MotorView|
                app_step(AppState::MotorTest, inputs, voltage_mv, limit_switch_pressed, sp, tr);
            let (_, s1, t1) = step(spindle, traverse);
            let (_, s2, t2) = step(s1, t1);
            let (_, s3, t3) = step(s2, t2);
            &&& center ==> s1.speed == t1.speed && s1.speed != spindle.speed
            &&& center ==> (spindle.speed == Speed::Slow ==> s1.speed == Speed::Fast)
            &&& center ==> (spindle.speed != Speed::Slow ==> ticks_for(s1.speed) > ticks_for(
                spindle.speed,
            ))
            &&& center ==> (spindle.speed == Speed::Moderate ==> s1.speed == Speed::Slow)
            &&& center ==> s3.speed == spindle.speed && t3.speed == spindle.speed
            &&& !center ==> s1.speed == spindle.speed && t1.speed == traverse.speed
        }),
{
}

/// The "not implemented" notice counts down once per poll and, when its count has run out or
/// on a RESET press, returns to the screen it was shown from: the home screen, or the menu it
/// names on the entry it names. It never touches the motors.
pub proof fn lemma_notice_returns_where_it_came_from(
    ticks: u16,
    prev: ReturnTarget,
    inputs: InputState,
    voltage_mv: u16,
    limit_switch_pressed: bool,
    spindle: MotorView,
    traverse: MotorView,
)
    ensures
        ({
            let state = AppState::NotImplemented { ticks, prev };
            let (next, s, t) = app_step(
                state,
                inputs,
                voltage_mv,
                limit_switch_pressed,
                spindle,
                traverse,
            );
            let reset = (inputs.act_curr & ACT_RESET) != 0 && (inputs.act_prev & ACT_RESET) == 0;
            &&& s == spindle && t == traverse
            &&& (ticks == 0 || reset) ==> match prev {
                ReturnTarget::Home => next == AppState::Home,
                ReturnTarget::Menu(id, sel) => next == AppState::Menu { id, selection: sel },
            }
            &&& !(ticks == 0 || reset) ==> next == AppState::NotImplemented {
                ticks: (ticks - 1) as u16,
                prev,
            }
        }),
{
}


/// RESET cancels homing in every phase: the next state is the "Canceled!" error and both
/// motors are stopped and released.
pub proof fn lemma_reset_cancels_homing(
    phase: u8,
    home_pos: i32,
    start_pos: i32,
    target: HomingTarget,
    inputs: InputState,
    voltage_mv: u16,
    limit_switch_pressed: bool,
    spindle: MotorView,
    traverse: MotorView,
)
    requires
        (inputs.act_curr & ACT_RESET) != 0 && (inputs.act_prev & ACT_RESET) == 0,
    ensures
        app_step(
            AppState::CarriageHoming { phase, home_pos, start_pos, target },
            inputs,
            voltage_mv,
            limit_switch_pressed,
            spindle,
            traverse,
        ) == (
            AppState::HomingError { msg: "Canceled!" },
            MotorView { moving: false, released: true, ..spindle },
            MotorView { moving: false, released: true, ..traverse },
        ),
{
}

/// The phases of homing without RESET. Phase 1 seeks the switch backward at fast speed and,
/// once it closes, stops the traverse (holding it) and remembers its position as the start
/// of the back-off. Phase 2, once the switch opens, stops the traverse and takes its position
/// as home. Phase 3 approaches the switch again backward at slow speed and, once it closes,
/// stops and moves home on, away from where the switch closed, by half the gap between the
/// two switch edges (rounded toward zero).
/// Phase 4 drives the traverse toward home at moderate speed and, there, ends homing with
/// both motors released: in the maintenance menu on its first entry, or for a coil with
/// the 1200-poll notice that returns to the main menu's first entry. The spindle is never
/// touched on the way.
pub proof fn lemma_homing_phases(
    phase: u8,
    home_pos: i32,
    start_pos: i32,
    target: HomingTarget,
    inputs: InputState,
    voltage_mv: u16,
    limit_switch_pressed: bool,
    spindle: MotorView,
    traverse: MotorView,
)
    requires
        !((inputs.act_curr & ACT_RESET) != 0 && (inputs.act_prev & ACT_RESET) == 0),
        homing::homing_in_range(phase, home_pos, start_pos, inputs, limit_switch_pressed, traverse),
    ensures
        ({
            let state = AppState::CarriageHoming { phase, home_pos, start_pos, target };
            let (next, s, t) = app_step(
                state,
                inputs,
                voltage_mv,
                limit_switch_pressed,
                spindle,
                traverse,
            );
            let stopped = MotorView { moving: false, ..traverse };
            let drive = |speed: Speed, direction: Direction|
                MotorView { speed, direction, moving: true, released: false, ..traverse };
            &&& (1 <= phase <= 4 && next is CarriageHoming) ==> s == spindle
            &&& phase == 1 && limit_switch_pressed ==> next == AppState::CarriageHoming {
                phase: 2,
                home_pos,
                start_pos: traverse.position,
                target,
            } && t == stopped
            &&& phase == 1 && !limit_switch_pressed ==> next == state && t == drive(
                Speed::Fast,
                Direction::Backward,
            )
            &&& phase == 2 && !limit_switch_pressed ==> next == AppState::CarriageHoming {
                phase: 3,
                home_pos: traverse.position,
                start_pos,
                target,
            } && t == stopped
            &&& phase == 3 && !limit_switch_pressed ==> next == state && t == drive(
                Speed::Slow,
                Direction::Backward,
            )
            &&& phase == 3 && limit_switch_pressed ==> t == stopped
            &&& phase == 3 && limit_switch_pressed ==> (next matches AppState::CarriageHoming {
                phase: 4,
                home_pos: mid,
                start_pos: s2,
                target: t2,
            } && s2 == start_pos && t2 == target && ({
                let gap = home_pos - traverse.position;
                let shift = mid - home_pos;
                &&& -1 <= 2 * shift - gap <= 1
                &&& gap >= 0 ==> 0 <= 2 * shift <= gap
                &&& gap <= 0 ==> gap <= 2 * shift <= 0
            }))
            &&& phase == 4 && traverse.position == home_pos ==> s == MotorView {
                moving: false,
                released: true,
                ..spindle
            } && t == MotorView { moving: false, released: true, ..traverse } && next == match target {
                HomingTarget::MaintenanceMenu => AppState::Menu {
                    id: MenuId::Maintenance,
                    selection: 0,
                },
                HomingTarget::WindCoil => AppState::NotImplemented {
                    ticks: 1200,
                    prev: ReturnTarget::Menu(MenuId::Main, 0),
                },
            }
            &&& phase == 4 && traverse.position != home_pos ==> next == state && t == drive(
                Speed::Moderate,
                if traverse.position < home_pos {
                    Direction::Forward
                } else {
                    Direction::Backward
                },
            )
            &&& !(1 <= phase <= 4) ==> next == state && s == spindle && t == traverse
        }),
{
    if phase == 3 && limit_switch_pressed {
        let gap = home_pos - traverse.position;
        let h = homing::half_toward_zero(gap);
        assert(-1 <= 2 * h - gap <= 1);
        assert(((home_pos + h) as i32) as int == home_pos + h);
    }
}


/// Menu navigation. RESET leaves a menu: the main menu for the home screen, the maintenance
/// menu for the main menu on its "Maintenance" entry. Otherwise RIGHT alone moves to the
/// next entry and LEFT alone to the previous one, wrapping round; and SET or CENTER chooses
/// the entry then selected: in the main menu homing for a coil, the maintenance menu or the
/// about screen; in the maintenance menu homing back to it, the motor, switch or voltage
/// test. The motors are never touched.
pub proof fn lemma_menu_navigation(
    id: MenuId,
    selection: u8,
    inputs: InputState,
    voltage_mv: u16,
    limit_switch_pressed: bool,
    spindle: MotorView,
    traverse: MotorView,
)
    requires
        selection < menu::menu_len(id),
    ensures
        ({
            let (next, s, t) = app_step(
                AppState::Menu { id, selection },
                inputs,
                voltage_mv,
                limit_switch_pressed,
                spindle,
                traverse,
            );
            let len: int = if id == MenuId::Main {
                3
            } else {
                4
            };
            let edge = |curr: u8, prev: u8, m: u8| (curr & m) != 0 && (prev & m) == 0;
            let reset = edge(inputs.act_curr, inputs.act_prev, ACT_RESET);
            let choose = edge(inputs.act_curr, inputs.act_prev, ACT_SET) || edge(
                inputs.act_curr,
                inputs.act_prev,
                ACT_CENTER,
            );
            let left = edge(inputs.dir_curr, inputs.dir_prev, DIR_LEFT);
            let right = edge(inputs.dir_curr, inputs.dir_prev, DIR_RIGHT);
            let moved: int = if right && !left {
                (selection + 1) % len
            } else if left && !right {
                (selection + len - 1) % len
            } else {
                selection as int
            };
            let chosen = if id == MenuId::Main {
                if moved == 0 {
                    AppState::CarriageHoming {
                        phase: 1,
                        home_pos: 0,
                        start_pos: 0,
                        target: HomingTarget::WindCoil,
                    }
                } else if moved == 1 {
                    AppState::Menu { id: MenuId::Maintenance, selection: 0 }
                } else {
                    AppState::About
                }
            } else {
                if moved == 0 {
                    AppState::CarriageHoming {
                        phase: 1,
                        home_pos: 0,
                        start_pos: 0,
                        target: HomingTarget::MaintenanceMenu,
                    }
                } else if moved == 1 {
                    AppState::MotorTest
                } else if moved == 2 {
                    AppState::SwitchTest
                } else {
                    AppState::VoltageTest
                }
            };
            &&& s == spindle && t == traverse
            &&& reset ==> next == if id == MenuId::Main {
                AppState::Home
            } else {
                AppState::Menu { id: MenuId::Main, selection: 1 }
            }
            &&& !reset && choose ==> next == chosen
            &&& !reset && !choose ==> next == AppState::Menu { id, selection: moved as u8 }
        }),
{
}

/// The motor test jogs each motor while its buttons are held (levels, not presses): UP turns
/// the spindle forward, else DOWN backward, else it stops holding its coils; RIGHT turns the
/// traverse forward, else LEFT backward, else it stops. RESET releases both motors and
/// returns to the maintenance menu on its first entry; otherwise the test stays.
pub proof fn lemma_motor_test_jogs(
    inputs: InputState,
    voltage_mv: u16,
    limit_switch_pressed: bool,
    spindle: MotorView,
    traverse: MotorView,
)
    ensures
        ({
            let (next, s, t) = app_step(
                AppState::MotorTest,
                inputs,
                voltage_mv,
                limit_switch_pressed,
                spindle,
                traverse,
            );
            let reset = (inputs.act_curr & ACT_RESET) != 0 && (inputs.act_prev & ACT_RESET) == 0;
            let up = (inputs.dir_curr & DIR_UP) != 0;
            let down = (inputs.dir_curr & DIR_DOWN) != 0;
            let right = (inputs.dir_curr & DIR_RIGHT) != 0;
            let left = (inputs.dir_curr & DIR_LEFT) != 0;
            &&& next == if reset {
                AppState::Menu { id: MenuId::Maintenance, selection: 0 }
            } else {
                AppState::MotorTest
            }
            &&& s.position == spindle.position && t.position == traverse.position
            &&& reset ==> !s.moving && s.released && !t.moving && t.released
            &&& !reset && up ==> s.moving && !s.released && s.direction == Direction::Forward
            &&& !reset && !up && down ==> s.moving && !s.released && s.direction
                == Direction::Backward
            &&& !reset && !up && !down ==> !s.moving && s.released == spindle.released
                && s.direction == spindle.direction
            &&& !reset && right ==> t.moving && !t.released && t.direction == Direction::Forward
            &&& !reset && !right && left ==> t.moving && !t.released && t.direction
                == Direction::Backward
            &&& !reset && !right && !left ==> !t.moving && t.released == traverse.released
                && t.direction == traverse.direction
        }),
{
}


/// The other screens, one poll each, never touching the motors. The loading screen and the
/// voltage warning count down once per poll and then give way to the home screen and the
/// voltage test. On the home screen CENTER or SET opens the main menu on its first entry.
/// RESET leaves the about screen for the main menu on its "About" entry, the switch test
/// and the voltage test for the maintenance menu on the entry just above their own ("Motor
/// Test" and "Switch Test"), and a homing error for the home screen; without RESET each
/// stays.
pub proof fn lemma_simple_screens(
    inputs: InputState,
    voltage_mv: u16,
    limit_switch_pressed: bool,
    spindle: MotorView,
    traverse: MotorView,
    ticks: u16,
    high: bool,
    msg: &'static str,
)
    ensures
        ({
            let step = |state: AppState|
                app_step(state, inputs, voltage_mv, limit_switch_pressed, spindle, traverse);
            let edge = |m: u8| (inputs.act_curr & m) != 0 && (inputs.act_prev & m) == 0;
            let reset = edge(ACT_RESET);
            let stays_or = |state: AppState, out: AppState|
                step(state) == (if reset {
                    out
                } else {
                    state
                }, spindle, traverse);
            &&& step(AppState::Preflight { ticks }) == (if ticks == 0 {
                AppState::Home
            } else {
                AppState::Preflight { ticks: (ticks - 1) as u16 }
            }, spindle, traverse)
            &&& step(AppState::VoltageDanger { ticks, high }) == (if ticks == 0 {
                AppState::VoltageTest
            } else {
                AppState::VoltageDanger { ticks: (ticks - 1) as u16, high }
            }, spindle, traverse)
            &&& step(AppState::Home) == (if edge(ACT_CENTER) || edge(ACT_SET) {
                AppState::Menu { id: MenuId::Main, selection: 0 }
            } else {
                AppState::Home
            }, spindle, traverse)
            &&& stays_or(AppState::About, AppState::Menu { id: MenuId::Main, selection: 2 })
            &&& stays_or(AppState::SwitchTest, AppState::Menu { id: MenuId::Maintenance, selection: 1 })
            &&& stays_or(
                AppState::VoltageTest,
                AppState::Menu { id: MenuId::Maintenance, selection: 2 },
            )
            &&& stays_or(AppState::HomingError { msg }, AppState::Home)
        }),
{
}

} // verus!
