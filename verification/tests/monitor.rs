use coil_winder::monitor::{scroll_top, switch_list};

#[test]
fn no_switch_reads_none() {
    assert_eq!(switch_list(0, 0).as_str(), "None");
}

#[test]
fn pressed_switches_are_listed_in_order() {
    assert_eq!(switch_list(1, 0).as_str(), "UP");
    assert_eq!(switch_list(0b1001, 0b010).as_str(), "UP, RIGHT, SET");
    assert_eq!(switch_list(0, 0b101).as_str(), "CENTER, RESET");
    assert_eq!(
        switch_list(0xff, 0xff).as_str(),
        "UP, DOWN, LEFT, RIGHT, CENTER, SET, RESET"
    );
}

#[test]
fn the_window_moves_every_twelfth_poll() {
    assert_eq!(scroll_top(0, 0, 2), None);
    assert_eq!(scroll_top(11, 0, 2), None);
    assert_eq!(scroll_top(12, 0, 2), Some(0));
    assert_eq!(scroll_top(12, 0, 4), Some(1));
    assert_eq!(scroll_top(24, 1, 4), Some(2));
    assert_eq!(scroll_top(36, 2, 4), Some(0));
    assert_eq!(scroll_top(-12, 0, 4), None);
}
