use xastge::input::{Keyboard, MouseButtons};
use xastge::window::{Action, Key, Modifiers, MouseButton, WindowEvent};

const SHIFT: Modifiers = Modifiers(1);

fn key(code: i32, action: Action) -> WindowEvent {
    WindowEvent::Key(Key(code), 0, action, SHIFT)
}

#[test]
fn press_holds_key_and_marks_frame() {
    let mut kb = Keyboard::default();
    assert!(!kb.is_pressed(Key(65)));
    kb.handle_event(&key(65, Action::Press));
    assert!(kb.is_pressed(Key(65)));
    assert!(kb.just_pressed(Key(65)));
    assert!(!kb.just_released(Key(65)));
    assert_eq!(kb.modifiers(), SHIFT);
}

#[test]
fn key_stays_held_across_frames_until_released() {
    let mut kb = Keyboard::default();
    kb.handle_event(&key(87, Action::Press));
    kb.clear_frame();
    assert!(kb.is_pressed(Key(87)));
    assert!(!kb.just_pressed(Key(87)));
    kb.handle_event(&key(87, Action::Repeat));
    assert!(kb.is_pressed(Key(87)));
    kb.handle_event(&key(87, Action::Release));
    assert!(!kb.is_pressed(Key(87)));
    assert!(kb.just_released(Key(87)));
    kb.clear_frame();
    assert!(!kb.just_released(Key(87)));
}

#[test]
fn press_and_release_in_one_frame_report_both() {
    let mut kb = Keyboard::default();
    kb.handle_event(&key(32, Action::Press));
    kb.handle_event(&key(32, Action::Release));
    assert!(kb.just_pressed(Key(32)));
    assert!(kb.just_released(Key(32)));
    assert!(!kb.is_pressed(Key(32)));
}

#[test]
fn keyboard_ignores_other_events() {
    let mut kb = Keyboard::default();
    kb.handle_event(&WindowEvent::MouseButton(MouseButton(0), Action::Press, SHIFT));
    kb.handle_event(&WindowEvent::Other);
    assert!(!kb.is_pressed(Key(0)));
    assert_eq!(kb.modifiers(), Modifiers::empty());
}

#[test]
fn repeat_only_updates_modifiers() {
    let mut kb = Keyboard::default();
    kb.handle_event(&WindowEvent::Key(Key(10), 0, Action::Repeat, Modifiers(4)));
    assert!(!kb.is_pressed(Key(10)));
    assert!(!kb.just_pressed(Key(10)));
    assert_eq!(kb.modifiers(), Modifiers(4));
}

#[test]
fn mouse_buttons_track_press_and_release() {
    let mut m = MouseButtons::new();
    m.handle_event(&WindowEvent::MouseButton(MouseButton(1), Action::Press, SHIFT));
    assert!(m.is_pressed(MouseButton(1)));
    assert!(m.just_pressed(MouseButton(1)));
    m.clear_frame();
    assert!(m.is_pressed(MouseButton(1)));
    assert!(!m.just_pressed(MouseButton(1)));
    m.handle_event(&WindowEvent::MouseButton(MouseButton(1), Action::Release, SHIFT));
    assert!(!m.is_pressed(MouseButton(1)));
    assert!(m.just_released(MouseButton(1)));
    m.handle_event(&key(1, Action::Press));
    assert!(!m.is_pressed(MouseButton(1)));
}
