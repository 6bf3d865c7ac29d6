use flycam::fixed::ONE;
use flycam::input::{InputState, Key, KeyEvent, KeyState, PendingMotion, SPRINT_MULTIPLIER};
use flycam::vector::Vec3;

fn press(state: &mut InputState, key: Key) {
    state.update_keyboard(&KeyEvent { state: KeyState::Pressed, key: Some(key) });
}

fn release(state: &mut InputState, key: Key) {
    state.update_keyboard(&KeyEvent { state: KeyState::Released, key: Some(key) });
}

fn flags(state: &InputState) -> [bool; 11] {
    [
        state.space_pressed,
        state.shift_pressed,
        state.forward_pressed,
        state.backward_pressed,
        state.left_pressed,
        state.right_pressed,
        state.tab_pressed,
        state.up_pressed,
        state.down_pressed,
        state.ctrl_pressed,
        state.f_pressed,
    ]
}

#[test]
fn new_state_holds_nothing() {
    let mut state = InputState::new();
    assert_eq!(flags(&state), [false; 11]);
    assert_eq!(state.get_unhandled_mouse_move(), (0, 0));
    assert!(!state.movement_key_pressed());
    assert_eq!(state.movement_intent(), Vec3 { x: 0, y: 0, z: 0 });
}

#[test]
fn each_key_sets_its_own_flag() {
    let keys = [
        Key::Space,
        Key::LShift,
        Key::W,
        Key::S,
        Key::A,
        Key::D,
        Key::Tab,
        Key::Up,
        Key::Down,
        Key::LControl,
        Key::F,
    ];
    for (i, key) in keys.iter().enumerate() {
        let mut state = InputState::new();
        press(&mut state, *key);
        let mut expected = [false; 11];
        expected[i] = true;
        assert_eq!(flags(&state), expected);
        release(&mut state, *key);
        assert_eq!(flags(&state), [false; 11]);
    }
}

#[test]
fn release_of_one_key_keeps_the_others() {
    let mut state = InputState::new();
    press(&mut state, Key::W);
    press(&mut state, Key::D);
    press(&mut state, Key::LControl);
    release(&mut state, Key::D);
    assert!(state.forward_pressed);
    assert!(state.ctrl_pressed);
    assert!(!state.right_pressed);
}

#[test]
fn unknown_key_changes_nothing() {
    let mut state = InputState::new();
    press(&mut state, Key::W);
    state.update_mouse(&(5, -7));
    let before = flags(&state);
    press(&mut state, Key::Other);
    assert_eq!(flags(&state), before);
    release(&mut state, Key::Other);
    assert_eq!(flags(&state), before);
    state.update_keyboard(&KeyEvent { state: KeyState::Pressed, key: None });
    assert_eq!(flags(&state), before);
    state.update_keyboard(&KeyEvent { state: KeyState::Released, key: None });
    assert_eq!(flags(&state), before);
    assert_eq!(state.get_unhandled_mouse_move(), (5, -7));
}

#[test]
fn mouse_motion_is_delivered_once() {
    let mut state = InputState::new();
    state.update_mouse(&(1_500_000, -2_250_000));
    assert_eq!(state.get_unhandled_mouse_move(), (1_500_000, -2_250_000));
    assert_eq!(state.get_unhandled_mouse_move(), (0, 0));
    assert_eq!(state.get_unhandled_mouse_move(), (0, 0));
}

#[test]
fn last_mouse_motion_wins() {
    let mut state = InputState::new();
    state.update_mouse(&(1, 2));
    state.update_mouse(&(30, 40));
    assert_eq!(state.get_unhandled_mouse_move(), (30, 40));
    state.update_mouse(&(i64::MIN, i64::MAX));
    assert_eq!(state.get_unhandled_mouse_move(), (i64::MIN, i64::MAX));
    assert_eq!(state.get_unhandled_mouse_move(), (0, 0));
}

#[test]
fn keys_do_not_touch_the_mouse_motion() {
    let mut state = InputState::new();
    state.update_mouse(&(9, 9));
    press(&mut state, Key::A);
    release(&mut state, Key::A);
    assert_eq!(state.get_unhandled_mouse_move(), (9, 9));
}

#[test]
fn pending_motion_take_leaves_zero() {
    let mut motion = PendingMotion::new();
    assert_eq!(motion.take(), (0, 0));
    motion.set((3, 4));
    motion.set((5, 6));
    assert_eq!(motion.take(), (5, 6));
    assert_eq!(motion.take(), (0, 0));
}

#[test]
fn intent_follows_single_keys() {
    let cases = [
        (Key::W, Vec3 { x: ONE, y: 0, z: 0 }),
        (Key::S, Vec3 { x: -ONE, y: 0, z: 0 }),
        (Key::D, Vec3 { x: 0, y: 0, z: ONE }),
        (Key::A, Vec3 { x: 0, y: 0, z: -ONE }),
        (Key::Space, Vec3 { x: 0, y: ONE, z: 0 }),
        (Key::LShift, Vec3 { x: 0, y: -ONE, z: 0 }),
    ];
    for (key, expected) in cases {
        let mut state = InputState::new();
        press(&mut state, key);
        assert_eq!(state.movement_intent(), expected);
        assert!(state.movement_key_pressed());
    }
}

#[test]
fn opposing_keys_cancel() {
    let mut state = InputState::new();
    press(&mut state, Key::W);
    press(&mut state, Key::S);
    press(&mut state, Key::A);
    press(&mut state, Key::D);
    press(&mut state, Key::Space);
    press(&mut state, Key::LShift);
    assert_eq!(state.movement_intent(), Vec3 { x: 0, y: 0, z: 0 });
    assert!(state.movement_key_pressed());
    press(&mut state, Key::LControl);
    assert_eq!(state.movement_intent(), Vec3 { x: 0, y: 0, z: 0 });
}

#[test]
fn sprint_multiplies_forward_only() {
    let mut state = InputState::new();
    press(&mut state, Key::LControl);
    assert_eq!(state.movement_intent(), Vec3 { x: 0, y: 0, z: 0 });
    assert!(!state.movement_key_pressed());
    press(&mut state, Key::W);
    press(&mut state, Key::D);
    press(&mut state, Key::Space);
    assert_eq!(SPRINT_MULTIPLIER, 2);
    assert_eq!(state.movement_intent(), Vec3 { x: 2 * ONE, y: ONE, z: ONE });
    release(&mut state, Key::W);
    press(&mut state, Key::S);
    assert_eq!(state.movement_intent(), Vec3 { x: -ONE, y: ONE, z: ONE });
}

#[test]
fn keys_that_do_not_move_are_no_movement() {
    let mut state = InputState::new();
    press(&mut state, Key::Tab);
    press(&mut state, Key::Up);
    press(&mut state, Key::Down);
    press(&mut state, Key::F);
    press(&mut state, Key::LControl);
    assert!(!state.movement_key_pressed());
    assert_eq!(state.movement_intent(), Vec3 { x: 0, y: 0, z: 0 });
}
