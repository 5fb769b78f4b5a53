use sprite_engine::{Input, Key};

#[test]
fn press_then_release_toggles_is_pressed() {
    let mut input = Input::new();
    assert!(!input.is_pressed(Key::A));
    input.press_key(Key::A);
    assert!(input.is_pressed(Key::A));
    input.release_key(Key::A);
    assert!(!input.is_pressed(Key::A));
}

#[test]
fn repeated_press_adds_no_duplicate_entry() {
    let mut input = Input::new();
    input.press_key(Key::Space);
    input.press_key(Key::Space);
    assert!(input.is_pressed(Key::Space));
    assert_eq!(input.pressed_keys().len(), 1);
    assert_eq!(input.pressed_keys()[0], Key::Space);
}

#[test]
fn pressing_one_key_leaves_others_untouched() {
    let mut input = Input::new();
    input.press_key(Key::A);
    input.press_key(Key::Z);
    input.press_key(Key::F12);
    assert!(input.is_pressed(Key::A));
    assert!(input.is_pressed(Key::Z));
    assert!(input.is_pressed(Key::F12));
    assert!(!input.is_pressed(Key::B));
    input.release_key(Key::Z);
    assert!(input.is_pressed(Key::A));
    assert!(!input.is_pressed(Key::Z));
    assert!(input.is_pressed(Key::F12));
    assert_eq!(input.pressed_keys().as_slice(), &[Key::A, Key::F12]);
}

#[test]
fn focus_loss_clears_pressed_keys_and_mouse_state() {
    let mut input = Input::new();
    input.press_key(Key::W);
    input.press_key(Key::LShift);
    input.set_mouse_left_press(true);
    input.set_mouse_right_press(true);
    input.set_mouse_pos(Some((3, 4)));
    input.add_mouse_scroll(2);
    input.release_all();
    assert!(!input.is_pressed(Key::W));
    assert!(!input.is_pressed(Key::LShift));
    assert!(input.pressed_keys().is_empty());
    assert!(!input.is_mouse_left_pressed());
    assert!(!input.is_mouse_right_pressed());
    assert_eq!(input.mouse_pos(), None);
    // The scroll accumulator is kept across a focus loss.
    assert_eq!(input.scroll_pos(), 2);
}

#[test]
fn releasing_an_unpressed_key_is_a_no_op() {
    let mut input = Input::new();
    input.press_key(Key::Q);
    input.release_key(Key::E);
    assert!(input.is_pressed(Key::Q));
    assert_eq!(input.pressed_keys().as_slice(), &[Key::Q]);
}

#[test]
fn mouse_buttons_and_position_are_tracked() {
    let mut input = Input::new();
    input.set_mouse_left_press(true);
    assert!(input.is_mouse_left_pressed());
    assert!(!input.is_mouse_right_pressed());
    input.set_mouse_right_press(true);
    input.set_mouse_left_press(false);
    assert!(!input.is_mouse_left_pressed());
    assert!(input.is_mouse_right_pressed());
    input.set_mouse_pos(Some((10, 20)));
    assert_eq!(input.mouse_pos(), Some((10, 20)));
    input.set_mouse_pos(None);
    assert_eq!(input.mouse_pos(), None);
}

#[test]
fn scroll_accumulates_and_saturates() {
    let mut input = Input::new();
    input.add_mouse_scroll(1);
    input.add_mouse_scroll(1);
    input.add_mouse_scroll(-1);
    assert_eq!(input.scroll_pos(), 1);
    input.add_mouse_scroll(i64::MAX);
    input.add_mouse_scroll(1);
    assert_eq!(input.scroll_pos(), i64::MAX);
}
