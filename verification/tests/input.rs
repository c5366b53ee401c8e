use megumin::input::{Input, Key};

const ALL: [Key; 12] = [
    Key::Up,
    Key::Right,
    Key::Down,
    Key::Left,
    Key::W,
    Key::A,
    Key::S,
    Key::D,
    Key::Q,
    Key::E,
    Key::Space,
    Key::Escape,
];

#[test]
fn nothing_is_down_at_first() {
    let input = Input::new();
    for key in ALL {
        assert!(!input.was_key_pressed(key));
        assert!(!input.was_key_released(key));
        assert!(!input.is_key_held(key));
    }
    assert_eq!(input.get_cursor(), (0, 0));
}

#[test]
fn key_codes_differ() {
    for (i, a) in ALL.iter().enumerate() {
        for (j, b) in ALL.iter().enumerate() {
            assert_eq!(a.code() == b.code(), i == j);
        }
    }
}

#[test]
fn key_down_presses_and_holds() {
    let mut input = Input::new();
    input.key_down_event(Key::W);
    assert!(input.was_key_pressed(Key::W));
    assert!(input.is_key_held(Key::W));
    assert!(!input.was_key_released(Key::W));
    assert!(!input.was_key_pressed(Key::A));
    assert!(!input.is_key_held(Key::A));
}

#[test]
fn key_up_releases_and_lets_go() {
    let mut input = Input::new();
    input.key_down_event(Key::Space);
    input.key_up_event(Key::Space);
    assert!(input.was_key_pressed(Key::Space));
    assert!(input.was_key_released(Key::Space));
    assert!(!input.is_key_held(Key::Space));
}

#[test]
fn new_frame_forgets_presses_but_not_holds() {
    let mut input = Input::new();
    input.key_down_event(Key::Q);
    input.key_down_event(Key::E);
    input.key_up_event(Key::E);
    input.move_cursor(3, -4);
    input.begin_new_frame();
    assert!(!input.was_key_pressed(Key::Q));
    assert!(!input.was_key_pressed(Key::E));
    assert!(!input.was_key_released(Key::E));
    assert!(input.is_key_held(Key::Q));
    assert!(!input.is_key_held(Key::E));
    assert_eq!(input.get_cursor(), (3, -4));
    input.begin_new_frame();
    assert!(input.is_key_held(Key::Q));
    input.key_up_event(Key::Q);
    assert!(input.was_key_released(Key::Q));
    assert!(!input.is_key_held(Key::Q));
}

#[test]
fn cursor_keeps_the_last_place() {
    let mut input = Input::new();
    input.move_cursor(10, 20);
    input.move_cursor(-7, i32::MAX);
    assert_eq!(input.get_cursor(), (-7, i32::MAX));
    input.key_down_event(Key::A);
    assert_eq!(input.get_cursor(), (-7, i32::MAX));
}

#[test]
fn release_without_press_is_just_a_release() {
    let mut input = Input::new();
    input.key_up_event(Key::D);
    assert!(input.was_key_released(Key::D));
    assert!(!input.was_key_pressed(Key::D));
    assert!(!input.is_key_held(Key::D));
}
