use rc_8::backend::interfaces::KeyboardState;
use rc_8::backend::KEY_COUNT;

#[test]
fn new_key_pad_has_no_key_pressed() {
    let keys = KeyboardState::new();
    for key in 0..KEY_COUNT {
        assert!(!keys.pressed(key));
    }
    assert_eq!(keys.pressed_key(), None);
}

#[test]
fn hold_and_release_change_one_key() {
    let mut keys = KeyboardState::new();
    keys.hold(5);
    for key in 0..KEY_COUNT {
        assert_eq!(keys.pressed(key), key == 5);
    }
    keys.release(5);
    for key in 0..KEY_COUNT {
        assert!(!keys.pressed(key));
    }
}

#[test]
fn hold_twice_is_hold_once() {
    let mut keys = KeyboardState::new();
    keys.hold(0);
    keys.hold(0);
    assert!(keys.pressed(0));
    keys.release(0);
    assert!(!keys.pressed(0));
}

#[test]
fn release_of_a_released_key_changes_nothing() {
    let mut keys = KeyboardState::new();
    keys.hold(2);
    keys.release(9);
    assert!(keys.pressed(2));
    assert!(!keys.pressed(9));
}

#[test]
fn pressed_is_false_for_a_key_that_the_pad_does_not_have() {
    let mut keys = KeyboardState::new();
    for key in 0..KEY_COUNT {
        keys.hold(key);
    }
    assert!(keys.pressed(15));
    assert!(!keys.pressed(16));
    assert!(!keys.pressed(255));
    assert!(!keys.pressed(usize::MAX));
}

#[test]
fn pressed_key_is_the_lowest_pressed_key() {
    let mut keys = KeyboardState::new();
    keys.hold(11);
    assert_eq!(keys.pressed_key(), Some(11));
    keys.hold(3);
    assert_eq!(keys.pressed_key(), Some(3));
    keys.hold(15);
    assert_eq!(keys.pressed_key(), Some(3));
    keys.release(3);
    assert_eq!(keys.pressed_key(), Some(11));
    keys.release(11);
    assert_eq!(keys.pressed_key(), Some(15));
    keys.release(15);
    assert_eq!(keys.pressed_key(), None);
}

#[test]
fn pressed_key_finds_the_first_and_the_last_key() {
    let mut keys = KeyboardState::new();
    keys.hold(15);
    assert_eq!(keys.pressed_key(), Some(15));
    keys.hold(0);
    assert_eq!(keys.pressed_key(), Some(0));
}
