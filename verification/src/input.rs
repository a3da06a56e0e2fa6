use std::collections::HashSet;

use vstd::prelude::*;

use crate::window::{Action, Key, Modifiers, MouseButton, Scancode, WindowEvent};

verus! {

broadcast use vstd::std_specs::hash::group_hash_axioms;

/// Abstract value of a [`Keyboard`]: key codes held, pressed this frame and
/// released this frame, and the last modifiers seen.
pub struct KeyboardView {
    pub pressed: Set<i32>,
    pub just_pressed: Set<i32>,
    pub just_released: Set<i32>,
    pub modifiers: Modifiers,
}

/// Keyboard state, fed with window events and cleared once a frame.
pub struct Keyboard {
    pressed: HashSet<i32>,
    just_pressed: HashSet<i32>,
    just_released: HashSet<i32>,
    modifiers: Modifiers,
}

impl View for Keyboard {
    type V = KeyboardView;

    closed spec fn view(&self) -> KeyboardView {
        KeyboardView {
            pressed: self.pressed@,
            just_pressed: self.just_pressed@,
            just_released: self.just_released@,
            modifiers: self.modifiers,
        }
    }
}

impl KeyboardView {
    /// The keyboard after `event`: a press holds the key and marks it pressed
    /// this frame, a release lets it go and marks it released this frame, a
    /// repeat changes nothing but the modifiers, and other events change
    /// nothing.
    pub open spec fn after(self, event: WindowEvent) -> KeyboardView {
        match event {
            WindowEvent::Key(key, _, action, mods) => match action {
                Action::Press => KeyboardView {
                    pressed: self.pressed.insert(key.0),
                    just_pressed: self.just_pressed.insert(key.0),
                    modifiers: mods,
                    ..self
                },
                Action::Release => KeyboardView {
                    pressed: self.pressed.remove(key.0),
                    just_released: self.just_released.insert(key.0),
                    modifiers: mods,
                    ..self
                },
                Action::Repeat => KeyboardView { modifiers: mods, ..self },
            },
            _ => self,
        }
    }
}

impl Default for Keyboard {
    /// No key held, no modifier.
    fn default() -> (k: Keyboard)
        ensures
            k@.pressed == Set::<i32>::empty(),
            k@.just_pressed == Set::<i32>::empty(),
            k@.just_released == Set::<i32>::empty(),
            k@.modifiers == Modifiers(0),
    {
        Keyboard {
            pressed: HashSet::new(),
            just_pressed: HashSet::new(),
            just_released: HashSet::new(),
            modifiers: Modifiers::empty(),
        }
    }
}

impl Keyboard {
    /// Whether `key` is held.
    pub fn is_pressed(&self, key: Key) -> (r: bool)
        ensures
            r == self@.pressed.contains(key.0),
    {
        self.pressed.contains(&key.0)
    }

    /// Whether `key` went down this frame.
    pub fn just_pressed(&self, key: Key) -> (r: bool)
        ensures
            r == self@.just_pressed.contains(key.0),
    {
        self.just_pressed.contains(&key.0)
    }

    /// Whether `key` went up this frame.
    pub fn just_released(&self, key: Key) -> (r: bool)
        ensures
            r == self@.just_released.contains(key.0),
    {
        self.just_released.contains(&key.0)
    }

    /// The modifiers of the last key event.
    pub fn modifiers(&self) -> (m: Modifiers)
        ensures
            m == self@.modifiers,
    {
        self.modifiers
    }

    /// Updates the state with a window event.
    pub fn handle_event(&mut self, event: &WindowEvent)
        ensures
            final(self)@ == old(self)@.after(*event),
    {
        if let WindowEvent::Key(key, _, action, mods) = event {
            self.modifiers = *mods;
            match action {
                Action::Press => {
                    self.pressed.insert(key.0);
                    self.just_pressed.insert(key.0);
                },
                Action::Release => {
                    self.pressed.remove(&key.0);
                    self.just_released.insert(key.0);
                },
                Action::Repeat => {},
            }
        }
    }

    /// Starts a new frame: keys stay held, nothing is pressed or released
    /// this frame yet.
    pub fn clear_frame(&mut self)
        ensures
            final(self)@ == (KeyboardView {
                just_pressed: Set::<i32>::empty(),
                just_released: Set::<i32>::empty(),
                ..old(self)@
            }),
    {
        self.just_pressed.clear();
        self.just_released.clear();
    }
}

/// Abstract value of [`MouseButtons`]: buttons held, pressed this frame and
/// released this frame.
pub struct MouseButtonsView {
    pub pressed: Set<i32>,
    pub just_pressed: Set<i32>,
    pub just_released: Set<i32>,
}

/// The button part of the mouse state, fed with window events and cleared
/// once a frame.
pub struct MouseButtons {
    pressed: HashSet<i32>,
    just_pressed: HashSet<i32>,
    just_released: HashSet<i32>,
}

impl View for MouseButtons {
    type V = MouseButtonsView;

    closed spec fn view(&self) -> MouseButtonsView {
        MouseButtonsView {
            pressed: self.pressed@,
            just_pressed: self.just_pressed@,
            just_released: self.just_released@,
        }
    }
}

impl MouseButtonsView {
    /// The buttons after `event`: a press holds the button and marks it
    /// pressed this frame, a release lets it go and marks it released this
    /// frame; every other event changes nothing.
    pub open spec fn after(self, event: WindowEvent) -> MouseButtonsView {
        match event {
            WindowEvent::MouseButton(button, Action::Press, _) => MouseButtonsView {
                pressed: self.pressed.insert(button.0),
                just_pressed: self.just_pressed.insert(button.0),
                ..self
            },
            WindowEvent::MouseButton(button, Action::Release, _) => MouseButtonsView {
                pressed: self.pressed.remove(button.0),
                just_released: self.just_released.insert(button.0),
                ..self
            },
            _ => self,
        }
    }
}

impl MouseButtons {
    /// No button held.
    pub fn new() -> (m: MouseButtons)
        ensures
            m@.pressed == Set::<i32>::empty(),
            m@.just_pressed == Set::<i32>::empty(),
            m@.just_released == Set::<i32>::empty(),
    {
        MouseButtons { pressed: HashSet::new(), just_pressed: HashSet::new(), just_released: HashSet::new() }
    }

    /// Whether `button` is held.
    pub fn is_pressed(&self, button: MouseButton) -> (r: bool)
        ensures
            r == self@.pressed.contains(button.0),
    {
        self.pressed.contains(&button.0)
    }

    /// Whether `button` went down this frame.
    pub fn just_pressed(&self, button: MouseButton) -> (r: bool)
        ensures
            r == self@.just_pressed.contains(button.0),
    {
        self.just_pressed.contains(&button.0)
    }

    /// Whether `button` went up this frame.
    pub fn just_released(&self, button: MouseButton) -> (r: bool)
        ensures
            r == self@.just_released.contains(button.0),
    {
        self.just_released.contains(&button.0)
    }

    /// Updates the state with a window event.
    pub fn handle_event(&mut self, event: &WindowEvent)
        ensures
            final(self)@ == old(self)@.after(*event),
    {
        match event {
            WindowEvent::MouseButton(button, Action::Press, _) => {
                self.pressed.insert(button.0);
                self.just_pressed.insert(button.0);
            },
            WindowEvent::MouseButton(button, Action::Release, _) => {
                self.pressed.remove(&button.0);
                self.just_released.insert(button.0);
            },
            _ => {},
        }
    }

    /// Starts a new frame: buttons stay held, nothing is pressed or released
    /// this frame yet.
    pub fn clear_frame(&mut self)
        ensures
            final(self)@ == (MouseButtonsView {
                just_pressed: Set::<i32>::empty(),
                just_released: Set::<i32>::empty(),
                ..old(self)@
            }),
    {
        self.just_pressed.clear();
        self.just_released.clear();
    }
}

/// A key pressed and released within one frame was pressed and released
/// this frame, is no longer held, and the modifiers are those of the
/// release.
pub proof fn lemma_key_tap_within_frame(v: KeyboardView, key: Key, sc: Scancode, down: Modifiers, up: Modifiers)
    ensures
        ({
            let w = v.after(WindowEvent::Key(key, sc, Action::Press, down)).after(
                WindowEvent::Key(key, sc, Action::Release, up),
            );
            &&& !w.pressed.contains(key.0)
            &&& w.just_pressed.contains(key.0)
            &&& w.just_released.contains(key.0)
            &&& w.modifiers == up
        }),
{
}

/// A key event changes the state of that key only: every other key is held,
/// pressed this frame and released this frame exactly as before.
pub proof fn lemma_key_event_touches_one_key(v: KeyboardView, key: Key, sc: Scancode, action: Action, mods: Modifiers, other: i32)
    requires
        other != key.0,
    ensures
        ({
            let w = v.after(WindowEvent::Key(key, sc, action, mods));
            &&& w.pressed.contains(other) == v.pressed.contains(other)
            &&& w.just_pressed.contains(other) == v.just_pressed.contains(other)
            &&& w.just_released.contains(other) == v.just_released.contains(other)
        }),
{
}

/// A press holds the key until a release of it: repeats and events of other
/// keys or of the mouse keep it held.
pub proof fn lemma_key_held_until_released(v: KeyboardView, key: Key, event: WindowEvent)
    requires
        v.pressed.contains(key.0),
        !(event matches WindowEvent::Key(k, _, Action::Release, _) && k.0 == key.0),
    ensures
        v.after(event).pressed.contains(key.0),
{
}

/// A mouse button pressed and released within one frame was pressed and
/// released this frame and is no longer held.
pub proof fn lemma_button_click_within_frame(v: MouseButtonsView, button: MouseButton, down: Modifiers, up: Modifiers)
    ensures
        ({
            let w = v.after(WindowEvent::MouseButton(button, Action::Press, down)).after(
                WindowEvent::MouseButton(button, Action::Release, up),
            );
            &&& !w.pressed.contains(button.0)
            &&& w.just_pressed.contains(button.0)
            &&& w.just_released.contains(button.0)
        }),
{
}

/// A button event changes the state of that button only.
pub proof fn lemma_button_event_touches_one_button(v: MouseButtonsView, button: MouseButton, action: Action, mods: Modifiers, other: i32)
    requires
        other != button.0,
    ensures
        ({
            let w = v.after(WindowEvent::MouseButton(button, action, mods));
            &&& w.pressed.contains(other) == v.pressed.contains(other)
            &&& w.just_pressed.contains(other) == v.just_pressed.contains(other)
            &&& w.just_released.contains(other) == v.just_released.contains(other)
        }),
{
}

/// A key press holds the key and marks it pressed this frame; nothing else
/// changes but the modifiers, and in particular a release of the key earlier
/// in the frame is still reported.
pub proof fn lemma_key_press(v: KeyboardView, key: Key, sc: Scancode, mods: Modifiers)
    ensures
        ({
            let w = v.after(WindowEvent::Key(key, sc, Action::Press, mods));
            &&& w.pressed == v.pressed.insert(key.0)
            &&& w.just_pressed == v.just_pressed.insert(key.0)
            &&& w.just_released == v.just_released
            &&& w.modifiers == mods
        }),
{
}

/// A key release lets the key go and marks it released this frame; nothing
/// else changes but the modifiers, and a press of the key earlier in the
/// frame is still reported.
pub proof fn lemma_key_release(v: KeyboardView, key: Key, sc: Scancode, mods: Modifiers)
    ensures
        ({
            let w = v.after(WindowEvent::Key(key, sc, Action::Release, mods));
            &&& w.pressed == v.pressed.remove(key.0)
            &&& w.just_pressed == v.just_pressed
            &&& w.just_released == v.just_released.insert(key.0)
            &&& w.modifiers == mods
        }),
{
}

/// A key repeat is no new press: every key, its own included, is held,
/// pressed this frame and released this frame exactly as before; only the
/// modifiers change.
pub proof fn lemma_key_repeat(v: KeyboardView, key: Key, sc: Scancode, mods: Modifiers)
    ensures
        ({
            let w = v.after(WindowEvent::Key(key, sc, Action::Repeat, mods));
            &&& w.pressed == v.pressed
            &&& w.just_pressed == v.just_pressed
            &&& w.just_released == v.just_released
            &&& w.modifiers == mods
        }),
{
}

/// Events that are not key events leave the keyboard as it is.
pub proof fn lemma_keyboard_ignores_other_events(v: KeyboardView, button: MouseButton, action: Action, mods: Modifiers)
    ensures
        v.after(WindowEvent::MouseButton(button, action, mods)) == v,
        v.after(WindowEvent::Other) == v,
{
}

/// A mouse button press holds the button and marks it pressed this frame;
/// a release of the button earlier in the frame is still reported.
pub proof fn lemma_button_press(v: MouseButtonsView, button: MouseButton, mods: Modifiers)
    ensures
        ({
            let w = v.after(WindowEvent::MouseButton(button, Action::Press, mods));
            &&& w.pressed == v.pressed.insert(button.0)
            &&& w.just_pressed == v.just_pressed.insert(button.0)
            &&& w.just_released == v.just_released
        }),
{
}

/// A mouse button release lets the button go and marks it released this
/// frame; a press of the button earlier in the frame is still reported.
pub proof fn lemma_button_release(v: MouseButtonsView, button: MouseButton, mods: Modifiers)
    ensures
        ({
            let w = v.after(WindowEvent::MouseButton(button, Action::Release, mods));
            &&& w.pressed == v.pressed.remove(button.0)
            &&& w.just_pressed == v.just_pressed
            &&& w.just_released == v.just_released.insert(button.0)
        }),
{
}

/// A button released and pressed again within one frame was released and
/// pressed this frame, and is held.
pub proof fn lemma_button_release_then_press(v: MouseButtonsView, button: MouseButton, up: Modifiers, down: Modifiers)
    ensures
        ({
            let w = v.after(WindowEvent::MouseButton(button, Action::Release, up)).after(
                WindowEvent::MouseButton(button, Action::Press, down),
            );
            &&& w.pressed.contains(button.0)
            &&& w.just_pressed.contains(button.0)
            &&& w.just_released.contains(button.0)
        }),
{
}

/// Button repeats, key events and other events leave the mouse buttons as
/// they are.
pub proof fn lemma_buttons_ignore_other_events(v: MouseButtonsView, button: MouseButton, key: Key, sc: Scancode, action: Action, mods: Modifiers)
    ensures
        v.after(WindowEvent::MouseButton(button, Action::Repeat, mods)) == v,
        v.after(WindowEvent::Key(key, sc, action, mods)) == v,
        v.after(WindowEvent::Other) == v,
{
}

} // verus!
