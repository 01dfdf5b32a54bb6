use coil_winder::inputs::{InputState, ACT_CENTER, ACT_RESET, ACT_SET, DIR_DOWN, DIR_LEFT, DIR_RIGHT, DIR_UP};

#[test]
fn a_press_counts_only_on_its_first_poll() {
    let rising = InputState { dir_curr: DIR_UP, dir_prev: 0, act_curr: ACT_SET, act_prev: 0 };
    assert!(rising.just_pressed_dir(DIR_UP));
    assert!(rising.just_pressed_act(ACT_SET));
    let held = InputState { dir_curr: DIR_UP, dir_prev: DIR_UP, act_curr: ACT_SET, act_prev: ACT_SET };
    assert!(!held.just_pressed_dir(DIR_UP));
    assert!(!held.just_pressed_act(ACT_SET));
    let released = InputState { dir_curr: 0, dir_prev: DIR_UP, act_curr: 0, act_prev: ACT_SET };
    assert!(!released.just_pressed_dir(DIR_UP));
    assert!(!released.just_pressed_act(ACT_SET));
}

#[test]
fn buttons_are_told_apart_by_their_bits() {
    let s = InputState {
        dir_curr: DIR_LEFT | DIR_DOWN,
        dir_prev: DIR_DOWN,
        act_curr: ACT_CENTER,
        act_prev: 0,
    };
    assert!(s.just_pressed_dir(DIR_LEFT));
    assert!(!s.just_pressed_dir(DIR_DOWN));
    assert!(!s.just_pressed_dir(DIR_RIGHT));
    assert!(s.just_pressed_act(ACT_CENTER));
    assert!(!s.just_pressed_act(ACT_RESET));
    assert_eq!((DIR_LEFT, DIR_RIGHT, DIR_DOWN, DIR_UP), (1, 2, 4, 8));
    assert_eq!((ACT_CENTER, ACT_SET, ACT_RESET), (1, 2, 4));
}
