use coil_winder::stepper::{Direction, Speed, Stepper, StepperMotor};

const OFF: (bool, bool, bool, bool) = (false, false, false, false);

#[test]
fn a_new_motor_is_stopped_fast_and_forward() {
    let s = Stepper::new();
    assert_eq!(s.speed(), Speed::Fast);
    assert_eq!(s.direction(), Direction::Forward);
    assert!(!s.is_moving());
    assert_eq!(s.position(), 0);
    assert_eq!(s.coils(), OFF);
}

#[test]
fn speed_labels() {
    assert_eq!(Speed::Fast.as_str(), "FST");
    assert_eq!(Speed::Moderate.as_str(), "MOD");
    assert_eq!(Speed::Slow.as_str(), "SLW");
}

#[test]
fn starting_drives_the_current_step() {
    let mut s = Stepper::new();
    s.set_moving(true);
    assert!(s.is_moving());
    assert_eq!(s.coils(), (true, true, false, false));
}

#[test]
fn a_stopped_motor_ignores_ticks() {
    let mut s = Stepper::new();
    for _ in 0..20 {
        s.tick();
    }
    assert_eq!(s.position(), 0);
    assert_eq!(s.coils(), OFF);
}

#[test]
fn fast_forward_steps_every_third_tick_through_the_cycle() {
    let mut s = Stepper::new();
    s.set_moving(true);
    let patterns = [
        (false, true, true, false),
        (false, false, true, true),
        (true, false, false, true),
        (true, true, false, false),
    ];
    for (k, p) in patterns.iter().enumerate() {
        s.tick();
        s.tick();
        assert_eq!(s.position(), k as i32);
        s.tick();
        assert_eq!(s.position(), k as i32 + 1);
        assert_eq!(s.coils(), *p);
    }
}

#[test]
fn each_speed_has_its_own_step_period() {
    for (speed, ticks) in [(Speed::Fast, 3), (Speed::Moderate, 5), (Speed::Slow, 8)] {
        let mut s = Stepper::new();
        s.set_speed(speed);
        assert_eq!(s.speed(), speed);
        s.set_moving(true);
        for _ in 0..ticks - 1 {
            s.tick();
        }
        assert_eq!(s.position(), 0);
        s.tick();
        assert_eq!(s.position(), 1);
    }
}

#[test]
fn backward_steps_undo_forward_steps() {
    let mut s = Stepper::new();
    s.set_moving(true);
    for _ in 0..3 {
        s.tick();
    }
    assert_eq!(s.position(), 1);
    s.set_direction(Direction::Backward);
    for _ in 0..3 {
        s.tick();
    }
    assert_eq!(s.position(), 0);
    assert_eq!(s.coils(), (true, true, false, false));
    for _ in 0..3 {
        s.tick();
    }
    assert_eq!(s.position(), -1);
    assert_eq!(s.coils(), (true, false, false, true));
}

#[test]
fn release_stops_and_cuts_the_coils() {
    let mut s = Stepper::new();
    s.set_moving(true);
    s.release();
    assert!(!s.is_moving());
    assert_eq!(s.coils(), OFF);
    s.set_moving(true);
    assert_eq!(s.coils(), (true, true, false, false));
}

#[test]
fn the_step_count_wraps_and_can_be_set() {
    let mut s = Stepper::new();
    s.set_position(i32::MAX);
    s.set_moving(true);
    for _ in 0..3 {
        s.tick();
    }
    assert_eq!(s.position(), i32::MIN);
}

#[test]
fn stopping_keeps_the_coils_and_restarting_restarts_the_count() {
    let mut s = Stepper::new();
    s.set_moving(true);
    s.tick();
    s.tick();
    s.set_moving(false);
    assert_eq!(s.coils(), (true, true, false, false));
    s.set_moving(true);
    s.tick();
    s.tick();
    assert_eq!(s.position(), 0);
    s.tick();
    assert_eq!(s.position(), 1);
}

#[test]
fn a_tick_reports_when_it_steps() {
    let mut s = Stepper::new();
    assert!(!s.tick_and_report());
    s.set_moving(true);
    assert!(!s.tick_and_report());
    assert!(!s.tick_and_report());
    assert!(s.tick_and_report());
    assert_eq!(s.position(), 1);
    assert_eq!(s.coils(), (false, true, true, false));
}

#[test]
fn the_position_after_many_ticks_follows_the_whole_periods() {
    // Moderate: one step per five ticks; 23 ticks take four steps backward.
    let mut s = Stepper::new();
    s.set_speed(Speed::Moderate);
    s.set_direction(Direction::Backward);
    s.set_moving(true);
    for _ in 0..23 {
        s.tick();
    }
    assert_eq!(s.position(), -4);
    // Index (0 - 4) mod 4 = 0: back on the first pattern.
    assert_eq!(s.coils(), (true, true, false, false));
}
