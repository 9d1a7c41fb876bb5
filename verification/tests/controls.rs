use ultrasonic_sim::pause::toggle_pause;
use ultrasonic_sim::steering::{input_direction, SteeringKeys};

fn keys(left: bool, right: bool, up: bool, down: bool) -> SteeringKeys {
    SteeringKeys { left, right, up, down }
}

#[test]
fn space_toggles_pause() {
    assert!(toggle_pause(false, true));
    assert!(!toggle_pause(true, true));
}

#[test]
fn no_press_keeps_pause_state() {
    assert!(!toggle_pause(false, false));
    assert!(toggle_pause(true, false));
}

#[test]
fn two_presses_restore_pause_state() {
    for p in [false, true] {
        assert_eq!(toggle_pause(toggle_pause(p, true), true), p);
    }
}

#[test]
fn no_keys_no_direction() {
    assert_eq!(input_direction(keys(false, false, false, false)), (0, 0));
}

#[test]
fn single_keys() {
    assert_eq!(input_direction(keys(true, false, false, false)), (-1, 0));
    assert_eq!(input_direction(keys(false, true, false, false)), (1, 0));
    assert_eq!(input_direction(keys(false, false, true, false)), (0, 1));
    assert_eq!(input_direction(keys(false, false, false, true)), (0, -1));
}

#[test]
fn diagonal_and_opposite_keys() {
    assert_eq!(input_direction(keys(false, true, true, false)), (1, 1));
    assert_eq!(input_direction(keys(true, false, false, true)), (-1, -1));
    assert_eq!(input_direction(keys(true, true, false, false)), (0, 0));
    assert_eq!(input_direction(keys(false, false, true, true)), (0, 0));
    assert_eq!(input_direction(keys(true, true, true, true)), (0, 0));
    assert_eq!(input_direction(keys(true, true, true, false)), (0, 1));
}
