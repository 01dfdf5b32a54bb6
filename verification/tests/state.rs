use coil_winder::display::{DisplayCalls, DisplayManager, HardwareDisplay};
use coil_winder::inputs::{InputState, ACT_CENTER, ACT_RESET, ACT_SET, DIR_DOWN, DIR_LEFT, DIR_RIGHT, DIR_UP};
use coil_winder::state::homing::HomingTarget;
use coil_winder::state::menu::MenuId;
use coil_winder::state::{about, home, homing, homing_error, menu, motor_test, not_implemented, preflight, switch_test, voltage_danger, voltage_test};
use coil_winder::state::{AppState, ReturnTarget};
use coil_winder::stepper::{Direction, Speed, Stepper, StepperMotor};

/// A display that keeps what it shows.
struct Screen {
    cells: [[char; 16]; 2],
    row: usize,
    col: usize,
}

impl Screen {
    fn new() -> Self {
        Screen { cells: [[' '; 16]; 2], row: 0, col: 0 }
    }
    fn line(&self, r: usize) -> String {
        self.cells[r].iter().collect()
    }
}

impl HardwareDisplay for Screen {
    type Error = ();
    fn sent(&self) -> DisplayCalls {
        unreachable!("the call record exists only in the proofs")
    }
    fn set_cursor(&mut self, row: u8, col: u8) -> Result<(), ()> {
        self.row = row as usize;
        self.col = col as usize;
        Ok(())
    }
    fn write_char(&mut self, c: char) -> Result<(), ()> {
        self.cells[self.row][self.col] = c;
        self.col += 1;
        Ok(())
    }
    fn clear(&mut self) -> Result<(), ()> {
        self.cells = [[' '; 16]; 2];
        Ok(())
    }
}

fn press_act(mask: u8) -> InputState {
    InputState { dir_curr: 0, dir_prev: 0, act_curr: mask, act_prev: 0 }
}

fn press_dir(mask: u8) -> InputState {
    InputState { dir_curr: mask, dir_prev: 0, act_curr: 0, act_prev: 0 }
}

fn idle() -> InputState {
    InputState { dir_curr: 0, dir_prev: 0, act_curr: 0, act_prev: 0 }
}

fn setup() -> (DisplayManager, Screen) {
    (DisplayManager::new(16, 2), Screen::new())
}

#[test]
fn startup_counts_down_to_home() {
    let (mut ui, mut d) = setup();
    assert_eq!(AppState::initial(), AppState::Preflight { ticks: 100 });
    assert_eq!(preflight::update(2, &mut ui, &mut d), AppState::Preflight { ticks: 1 });
    assert_eq!(d.line(0), "Cambridge Hacksp");
    assert_eq!(d.line(1), "Loading...      ");
    assert_eq!(preflight::update(0, &mut ui, &mut d), AppState::Home);
}

#[test]
fn home_opens_the_main_menu() {
    let (mut ui, mut d) = setup();
    assert_eq!(home::update(&mut ui, &mut d, &idle()), AppState::Home);
    assert_eq!(d.line(1), "Welcome!        ");
    assert_eq!(
        home::update(&mut ui, &mut d, &press_act(ACT_SET)),
        AppState::Menu { id: MenuId::Main, selection: 0 }
    );
    assert_eq!(
        home::update(&mut ui, &mut d, &press_act(ACT_CENTER)),
        AppState::Menu { id: MenuId::Main, selection: 0 }
    );
}

#[test]
fn menus_have_headers_and_items() {
    assert_eq!(MenuId::Main.header(), "Main Menu");
    assert_eq!(MenuId::Maintenance.header(), "Maintenance");
    assert_eq!(MenuId::Main.items(), &["Wind a Coil", "Maintenance", "About"]);
    assert_eq!(
        MenuId::Maintenance.items(),
        &["Carriage Homing", "Motor Test", "Switch Test", "Voltage Test"]
    );
    assert_eq!(MenuId::Main.prev(), AppState::Home);
    assert_eq!(MenuId::Maintenance.prev(), AppState::Menu { id: MenuId::Main, selection: 1 });
}

#[test]
fn menu_entries_lead_to_their_screens() {
    assert_eq!(
        MenuId::Main.select(0),
        AppState::CarriageHoming { phase: 1, home_pos: 0, start_pos: 0, target: HomingTarget::WindCoil }
    );
    assert_eq!(MenuId::Main.select(1), AppState::Menu { id: MenuId::Maintenance, selection: 0 });
    assert_eq!(MenuId::Main.select(2), AppState::About);
    assert_eq!(MenuId::Main.select(7), AppState::Menu { id: MenuId::Main, selection: 7 });
    assert_eq!(
        MenuId::Maintenance.select(0),
        AppState::CarriageHoming { phase: 1, home_pos: 0, start_pos: 0, target: HomingTarget::MaintenanceMenu }
    );
    assert_eq!(MenuId::Maintenance.select(1), AppState::MotorTest);
    assert_eq!(MenuId::Maintenance.select(2), AppState::SwitchTest);
    assert_eq!(MenuId::Maintenance.select(3), AppState::VoltageTest);
    assert_eq!(MenuId::Maintenance.select(4), AppState::Menu { id: MenuId::Maintenance, selection: 4 });
}

#[test]
fn menu_selection_wraps_both_ways() {
    let (mut ui, mut d) = setup();
    assert_eq!(
        menu::update(MenuId::Main, 0, &mut ui, &mut d, &press_dir(DIR_LEFT)),
        AppState::Menu { id: MenuId::Main, selection: 2 }
    );
    assert_eq!(d.line(0), "Main Menu       ");
    assert_eq!(d.line(1), "Wind a Coil     ");
    assert_eq!(
        menu::update(MenuId::Main, 2, &mut ui, &mut d, &press_dir(DIR_RIGHT)),
        AppState::Menu { id: MenuId::Main, selection: 0 }
    );
    assert_eq!(d.line(1), "About           ");
    assert_eq!(
        menu::update(MenuId::Maintenance, 1, &mut ui, &mut d, &press_dir(DIR_RIGHT)),
        AppState::Menu { id: MenuId::Maintenance, selection: 2 }
    );
    assert_eq!(
        menu::update(MenuId::Maintenance, 1, &mut ui, &mut d, &press_dir(DIR_LEFT | DIR_RIGHT)),
        AppState::Menu { id: MenuId::Maintenance, selection: 1 }
    );
}

#[test]
fn menu_choose_and_leave() {
    let (mut ui, mut d) = setup();
    let choose_after_right = InputState { dir_curr: DIR_RIGHT, dir_prev: 0, act_curr: ACT_SET, act_prev: 0 };
    assert_eq!(menu::update(MenuId::Main, 1, &mut ui, &mut d, &choose_after_right), AppState::About);
    assert_eq!(
        menu::update(MenuId::Maintenance, 3, &mut ui, &mut d, &press_act(ACT_CENTER)),
        AppState::VoltageTest
    );
    let both = press_act(ACT_RESET | ACT_SET);
    assert_eq!(
        menu::update(MenuId::Maintenance, 3, &mut ui, &mut d, &both),
        AppState::Menu { id: MenuId::Main, selection: 1 }
    );
}

#[test]
fn the_long_about_line_scrolls() {
    let (mut ui, mut d) = setup();
    assert_eq!(about::update(&mut ui, &mut d, &idle()), AppState::About);
    assert_eq!(d.line(0), "About           ");
    assert_eq!(d.line(1), "Engineered by Ca");
    ui.tick();
    about::update(&mut ui, &mut d, &idle());
    assert_eq!(d.line(1), "ngineered by Cal");
    assert_eq!(
        about::update(&mut ui, &mut d, &press_act(ACT_RESET)),
        AppState::Menu { id: MenuId::Main, selection: 2 }
    );
}

#[test]
fn return_targets_name_their_states() {
    assert_eq!(ReturnTarget::Home.to_state(), AppState::Home);
    assert_eq!(
        ReturnTarget::Menu(MenuId::Maintenance, 3).to_state(),
        AppState::Menu { id: MenuId::Maintenance, selection: 3 }
    );
}

#[test]
fn the_notice_times_out_or_is_dismissed() {
    let (mut ui, mut d) = setup();
    let prev = ReturnTarget::Menu(MenuId::Main, 0);
    assert_eq!(
        not_implemented::update(5, prev, &mut ui, &mut d, &idle()),
        AppState::NotImplemented { ticks: 4, prev }
    );
    assert_eq!(d.line(1), "Not yet implemen");
    assert_eq!(
        not_implemented::update(0, prev, &mut ui, &mut d, &idle()),
        AppState::Menu { id: MenuId::Main, selection: 0 }
    );
    assert_eq!(
        not_implemented::update(9, ReturnTarget::Home, &mut ui, &mut d, &press_act(ACT_RESET)),
        AppState::Home
    );
}

#[test]
fn switch_test_shows_the_list() {
    let (mut ui, mut d) = setup();
    assert_eq!(switch_test::update(&mut ui, &mut d, &idle(), "UP, SET"), AppState::SwitchTest);
    assert_eq!(d.line(0), "Active Switches:");
    assert_eq!(d.line(1), "UP, SET         ");
    assert_eq!(
        switch_test::update(&mut ui, &mut d, &press_act(ACT_RESET), "UP"),
        AppState::Menu { id: MenuId::Maintenance, selection: 1 }
    );
}

#[test]
fn voltage_test_formats_two_decimals() {
    let (mut ui, mut d) = setup();
    assert_eq!(voltage_test::update(&mut ui, &mut d, &idle(), 5040), AppState::VoltageTest);
    assert_eq!(d.line(1), "5.04 V          ");
    voltage_test::update(&mut ui, &mut d, &idle(), 12345);
    assert_eq!(d.line(1), "12.34 V         ");
    voltage_test::update(&mut ui, &mut d, &idle(), 999);
    assert_eq!(d.line(1), "0.99 V          ");
    voltage_test::update(&mut ui, &mut d, &idle(), 7000);
    assert_eq!(d.line(1), "7.00 V          ");
    assert_eq!(
        voltage_test::update(&mut ui, &mut d, &press_act(ACT_RESET), 7000),
        AppState::Menu { id: MenuId::Maintenance, selection: 2 }
    );
}

#[test]
fn voltage_danger_blinks_then_returns() {
    let (mut ui, mut d) = setup();
    assert_eq!(
        voltage_danger::update(250, true, &mut ui, &mut d),
        AppState::VoltageDanger { ticks: 249, high: true }
    );
    assert_eq!(d.line(0), " !!! DANGER !!! ");
    assert_eq!(d.line(1), "  HIGH VOLTAGE  ");
    voltage_danger::update(150, false, &mut ui, &mut d);
    assert_eq!(d.line(0), "                ");
    voltage_danger::update(399, false, &mut ui, &mut d);
    assert_eq!(d.line(1), "  LOW VOLTAGE   ");
    assert_eq!(voltage_danger::update(0, false, &mut ui, &mut d), AppState::VoltageTest);
}

#[test]
fn homing_errors_wait_for_reset() {
    let (mut ui, mut d) = setup();
    assert_eq!(
        homing_error::update("Canceled!", &mut ui, &mut d, &idle()),
        AppState::HomingError { msg: "Canceled!" }
    );
    assert_eq!(d.line(0), "Homing Error    ");
    assert_eq!(d.line(1), "Canceled!       ");
    assert_eq!(homing_error::update("Canceled!", &mut ui, &mut d, &press_act(ACT_RESET)), AppState::Home);
}

#[test]
fn motor_test_jogs_and_cycles_speed() {
    let (mut ui, mut d) = setup();
    let mut spindle = Stepper::new();
    let mut traverse = Stepper::new();
    let held = InputState { dir_curr: DIR_UP | DIR_LEFT, dir_prev: DIR_UP | DIR_LEFT, act_curr: ACT_CENTER, act_prev: 0 };
    assert_eq!(motor_test::update(&mut ui, &mut d, &held, &mut spindle, &mut traverse), AppState::MotorTest);
    assert_eq!(spindle.speed(), Speed::Moderate);
    assert_eq!(traverse.speed(), Speed::Moderate);
    assert!(spindle.is_moving() && traverse.is_moving());
    assert_eq!(spindle.direction(), Direction::Forward);
    assert_eq!(traverse.direction(), Direction::Backward);
    assert_eq!(d.line(0), "Spndl: FWD MOD  ");
    assert_eq!(d.line(1), "Trvrs: REV MOD  ");

    let down = InputState { dir_curr: DIR_DOWN, dir_prev: 0, act_curr: 0, act_prev: 0 };
    motor_test::update(&mut ui, &mut d, &down, &mut spindle, &mut traverse);
    assert!(!traverse.is_moving());
    assert_eq!(d.line(0), "Spndl: REV MOD  ");
    assert_eq!(d.line(1), "Trvrs: STP MOD  ");

    assert_eq!(
        motor_test::update(&mut ui, &mut d, &press_act(ACT_RESET), &mut spindle, &mut traverse),
        AppState::Menu { id: MenuId::Maintenance, selection: 0 }
    );
    assert!(!spindle.is_moving());
    assert_eq!(spindle.coils(), (false, false, false, false));
}

/// Runs homing polls, ticking the traverse between polls, with the limit switch closed for
/// positions at or below `switch_at`.
fn run_homing(target: HomingTarget, start: i32, switch_at: i32) -> (AppState, i32, Stepper) {
    let (mut ui, mut d) = setup();
    let mut spindle = Stepper::new();
    let mut traverse = Stepper::new();
    traverse.set_position(start);
    let mut state = AppState::CarriageHoming { phase: 1, home_pos: 0, start_pos: 0, target };
    for _ in 0..100_000 {
        let (phase, home_pos, start_pos) = match state {
            AppState::CarriageHoming { phase, home_pos, start_pos, .. } => (phase, home_pos, start_pos),
            _ => return (state, traverse.position(), traverse),
        };
        let pressed = traverse.position() <= switch_at;
        state = homing::update(phase, home_pos, start_pos, target, &mut ui, &mut d, &idle(), pressed, &mut spindle, &mut traverse);
        traverse.tick();
    }
    panic!("homing did not finish");
}

#[test]
fn homing_finds_the_switch_and_returns_home() {
    let (state, pos, traverse) = run_homing(HomingTarget::MaintenanceMenu, 40, 10);
    assert_eq!(state, AppState::Menu { id: MenuId::Maintenance, selection: 0 });
    // Seeks down to 10, backs off to 11 (the switch opens), comes back to 10 (closes):
    // home = 11 + (11 - 10) / 2 = 11.
    assert_eq!(pos, 11);
    assert!(!traverse.is_moving());
    assert_eq!(traverse.coils(), (false, false, false, false));
}

#[test]
fn homing_for_a_coil_leads_to_the_notice() {
    let (state, _, _) = run_homing(HomingTarget::WindCoil, 5, 0);
    assert_eq!(
        state,
        AppState::NotImplemented { ticks: 1200, prev: ReturnTarget::Menu(MenuId::Main, 0) }
    );
}

#[test]
fn homing_phases_step_by_step() {
    let (mut ui, mut d) = setup();
    let mut spindle = Stepper::new();
    let mut traverse = Stepper::new();
    let t = HomingTarget::MaintenanceMenu;
    // Phase 1 without the switch: drive backward fast.
    let s = homing::update(1, 0, 0, t, &mut ui, &mut d, &idle(), false, &mut spindle, &mut traverse);
    assert_eq!(s, AppState::CarriageHoming { phase: 1, home_pos: 0, start_pos: 0, target: t });
    assert_eq!(d.line(1), "Phase 1: Seeking");
    assert!(traverse.is_moving());
    assert_eq!(traverse.direction(), Direction::Backward);
    assert_eq!(traverse.speed(), Speed::Fast);
    // Switch closes at -7: phase 2 starts there.
    traverse.set_position(-7);
    let s = homing::update(1, 0, 0, t, &mut ui, &mut d, &idle(), true, &mut spindle, &mut traverse);
    assert_eq!(s, AppState::CarriageHoming { phase: 2, home_pos: 0, start_pos: -7, target: t });
    assert!(!traverse.is_moving());
    // Phase 2 while closed: forward slowly.
    let s = homing::update(2, 0, -7, t, &mut ui, &mut d, &idle(), true, &mut spindle, &mut traverse);
    assert_eq!(s, AppState::CarriageHoming { phase: 2, home_pos: 0, start_pos: -7, target: t });
    assert_eq!(traverse.speed(), Speed::Slow);
    assert_eq!(traverse.direction(), Direction::Forward);
    // The switch opens at -4: home is -4.
    traverse.set_position(-4);
    let s = homing::update(2, 0, -7, t, &mut ui, &mut d, &idle(), false, &mut spindle, &mut traverse);
    assert_eq!(s, AppState::CarriageHoming { phase: 3, home_pos: -4, start_pos: -7, target: t });
    // Phase 3 closes again at -7: home moves by (-4 - -7) / 2 = 1 to -3.
    traverse.set_position(-7);
    let s = homing::update(3, -4, -7, t, &mut ui, &mut d, &idle(), true, &mut spindle, &mut traverse);
    assert_eq!(s, AppState::CarriageHoming { phase: 4, home_pos: -3, start_pos: -7, target: t });
    // A negative odd difference rounds toward zero: 0 + (0 - 3) / 2 = -1.
    traverse.set_position(3);
    let s = homing::update(3, 0, -7, t, &mut ui, &mut d, &idle(), true, &mut spindle, &mut traverse);
    assert_eq!(s, AppState::CarriageHoming { phase: 4, home_pos: -1, start_pos: -7, target: t });
    // Phase 4 drives toward home at moderate speed.
    let s = homing::update(4, -1, -7, t, &mut ui, &mut d, &idle(), false, &mut spindle, &mut traverse);
    assert_eq!(s, AppState::CarriageHoming { phase: 4, home_pos: -1, start_pos: -7, target: t });
    assert_eq!(traverse.speed(), Speed::Moderate);
    assert_eq!(traverse.direction(), Direction::Backward);
    // Other phases do nothing.
    let s = homing::update(9, 1, 2, t, &mut ui, &mut d, &idle(), false, &mut spindle, &mut traverse);
    assert_eq!(s, AppState::CarriageHoming { phase: 9, home_pos: 1, start_pos: 2, target: t });
    assert_eq!(d.line(1), "                ");
}

#[test]
fn a_stuck_switch_stops_homing() {
    let (mut ui, mut d) = setup();
    let mut spindle = Stepper::new();
    let mut traverse = Stepper::new();
    let t = HomingTarget::MaintenanceMenu;
    traverse.set_position(2047);
    let s = homing::update(2, 0, 0, t, &mut ui, &mut d, &idle(), true, &mut spindle, &mut traverse);
    assert_eq!(s, AppState::CarriageHoming { phase: 2, home_pos: 0, start_pos: 0, target: t });
    traverse.set_position(-2048);
    let s = homing::update(2, 0, 0, t, &mut ui, &mut d, &idle(), true, &mut spindle, &mut traverse);
    assert_eq!(s, AppState::HomingError { msg: "Limit switch malfunction!" });
    assert!(!traverse.is_moving());
}

#[test]
fn reset_cancels_homing_in_any_phase() {
    for phase in 1..=4 {
        let (mut ui, mut d) = setup();
        let mut spindle = Stepper::new();
        let mut traverse = Stepper::new();
        spindle.set_moving(true);
        traverse.set_moving(true);
        let s = homing::update(phase, 0, 0, HomingTarget::WindCoil, &mut ui, &mut d, &press_act(ACT_RESET), true, &mut spindle, &mut traverse);
        assert_eq!(s, AppState::HomingError { msg: "Canceled!" });
        assert!(!spindle.is_moving() && !traverse.is_moving());
    }
}

#[test]
fn the_app_dispatches_to_the_screen() {
    let (mut ui, mut d) = setup();
    let mut spindle = Stepper::new();
    let mut traverse = Stepper::new();
    let s = AppState::Home.update(&mut ui, &mut d, &press_act(ACT_SET), "", 0, false, &mut spindle, &mut traverse);
    assert_eq!(s, AppState::Menu { id: MenuId::Main, selection: 0 });
    let s = AppState::MotorTest.update(&mut ui, &mut d, &press_dir(DIR_RIGHT), "", 0, false, &mut spindle, &mut traverse);
    assert_eq!(s, AppState::MotorTest);
    assert!(traverse.is_moving());
    let s = AppState::VoltageTest.update(&mut ui, &mut d, &idle(), "", 4990, false, &mut spindle, &mut traverse);
    assert_eq!(s, AppState::VoltageTest);
    assert_eq!(d.line(1), "4.99 V          ");
    let s = AppState::SwitchTest.update(&mut ui, &mut d, &idle(), "LEFT", 0, false, &mut spindle, &mut traverse);
    assert_eq!(s, AppState::SwitchTest);
    assert_eq!(d.line(1), "LEFT            ");
}
