use xastge::gamepad::{GamepadBindings, GamepadEvent, GamepadId, Gamepads, MaxFireButton};

fn press(id: usize, code: u32) -> GamepadEvent {
    GamepadEvent { id: GamepadId(id), pressed_code: Some(code) }
}

fn other(id: usize) -> GamepadEvent {
    GamepadEvent { id: GamepadId(id), pressed_code: None }
}

#[test]
fn calibration_starts_idle() {
    let mut pads = Gamepads::new();
    assert_eq!(pads.take_calibrated_code(), None);
    pads.poll_events(&[press(0, 7)]);
    assert_eq!(pads.take_calibrated_code(), None);
}

#[test]
fn calibration_captures_first_press_on_target() {
    let mut pads = Gamepads::new();
    pads.begin_calibration(GamepadId(1));
    pads.poll_events(&[press(0, 3), other(1), press(1, 42)]);
    // Presses on other gamepads and non-press events are ignored.
    assert_eq!(pads.take_calibrated_code(), Some(42));
    // The code is handed out once.
    assert_eq!(pads.take_calibrated_code(), None);
}

#[test]
fn calibration_keeps_first_press_of_a_poll() {
    // The next button pressed is captured; later presses in the same poll
    // are not, since listening has ended.
    let mut pads = Gamepads::new();
    pads.begin_calibration(GamepadId(2));
    pads.poll_events(&[press(2, 10), press(2, 11)]);
    assert_eq!(pads.take_calibrated_code(), Some(10));
    // Listening has ended: the next poll captures nothing.
    pads.poll_events(&[press(2, 12)]);
    assert_eq!(pads.take_calibrated_code(), None);
}

#[test]
fn calibration_rearm_clears_capture() {
    let mut pads = Gamepads::new();
    pads.begin_calibration(GamepadId(0));
    pads.poll_events(&[press(0, 5)]);
    pads.begin_calibration(GamepadId(0));
    assert_eq!(pads.take_calibrated_code(), None);
    pads.poll_events(&[press(0, 6)]);
    assert_eq!(pads.take_calibrated_code(), Some(6));
}

#[test]
fn bindings_bind_and_query() {
    let mut b: GamepadBindings<MaxFireButton> = GamepadBindings::default();
    assert!(!b.is_bound(MaxFireButton::Key1));
    assert_eq!(b.code_of(MaxFireButton::Key1), None);
    b.bind(MaxFireButton::Key1, 288);
    b.bind(MaxFireButton::DPadUp, 300);
    assert!(b.is_bound(MaxFireButton::Key1));
    assert!(!b.is_bound(MaxFireButton::Key2));
    assert_eq!(b.code_of(MaxFireButton::Key1), Some(288));
    b.bind(MaxFireButton::Key1, 289);
    assert_eq!(b.code_of(MaxFireButton::Key1), Some(289));
    assert_eq!(b.code_of(MaxFireButton::DPadUp), Some(300));
}

#[test]
fn bound_pressed_resolves_through_binding() {
    let pads = Gamepads::new();
    let mut b: GamepadBindings<MaxFireButton> = GamepadBindings::default();
    b.bind(MaxFireButton::Key5, 20);
    b.bind(MaxFireButton::Key6, 21);
    let state: Vec<(u32, bool)> = vec![(19, true), (20, true), (21, false)];
    assert!(pads.is_bound_pressed(&b, MaxFireButton::Key5, Some(&state)));
    assert!(!pads.is_bound_pressed(&b, MaxFireButton::Key6, Some(&state)));
}

#[test]
fn bound_pressed_false_when_unbound_or_disconnected() {
    let pads = Gamepads::new();
    let mut b: GamepadBindings<MaxFireButton> = GamepadBindings::default();
    let state: Vec<(u32, bool)> = vec![(20, true)];
    assert!(!pads.is_bound_pressed(&b, MaxFireButton::Key5, Some(&state)));
    b.bind(MaxFireButton::Key5, 20);
    assert!(!pads.is_bound_pressed(&b, MaxFireButton::Key5, None));
    // A code the gamepad does not report is not pressed.
    b.bind(MaxFireButton::Key7, 99);
    assert!(!pads.is_bound_pressed(&b, MaxFireButton::Key7, Some(&state)));
}

#[test]
fn bound_pressed_uses_first_button_with_code() {
    let pads = Gamepads::new();
    let mut b: GamepadBindings<MaxFireButton> = GamepadBindings::default();
    b.bind(MaxFireButton::Mode, 8);
    let first_released: Vec<(u32, bool)> = vec![(8, false), (8, true)];
    assert!(!pads.is_bound_pressed(&b, MaxFireButton::Mode, Some(&first_released)));
    let first_pressed: Vec<(u32, bool)> = vec![(1, false), (8, true), (8, false)];
    assert!(pads.is_bound_pressed(&b, MaxFireButton::Mode, Some(&first_pressed)));
}

#[test]
fn bindings_list_one_entry_per_button() {
    let mut b: GamepadBindings<MaxFireButton> = GamepadBindings::default();
    b.bind(MaxFireButton::Key1, 5);
    b.bind(MaxFireButton::Key2, 6);
    b.bind(MaxFireButton::Key1, 7);
    let mut codes: Vec<(MaxFireButton, u32)> = b.codes().values().copied().collect();
    codes.sort_by_key(|e| e.1);
    assert_eq!(codes, vec![(MaxFireButton::Key2, 6), (MaxFireButton::Key1, 7)]);
}
