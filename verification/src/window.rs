use vstd::prelude::*;

verus! {

/// Whether the game window covers a monitor.
#[derive(Debug, Clone, Copy, PartialEq, Eq, Structural)]
pub enum WindowMode {
    Windowed,
    Fullscreen,
}

/// How the cursor behaves over the window.
#[derive(Debug, Clone, Copy, PartialEq, Eq, Structural)]
pub enum CursorMode {
    /// Visible and free.
    Normal,
    /// Invisible over the window, but free.
    Hidden,
    /// Invisible and held in the window, for camera control.
    Disabled,
}

/// How the game window is opened.
pub struct WindowDescriptor {
    pub title: &'static str,
    pub width: u32,
    pub height: u32,
    pub mode: WindowMode,
    pub cursor_mode: CursorMode,
}

impl Default for WindowDescriptor {
    /// An 800 by 600 window titled "Blank Game", with a normal cursor.
    fn default() -> (d: WindowDescriptor)
        ensures
            d.title@ == "Blank Game"@,
            d.width == 800,
            d.height == 600,
            d.mode == WindowMode::Windowed,
            d.cursor_mode == CursorMode::Normal,
    {
        WindowDescriptor {
            title: "Blank Game",
            width: 800,
            height: 600,
            mode: WindowMode::Windowed,
            cursor_mode: CursorMode::Normal,
        }
    }
}

/// A keyboard key, by its GLFW key code.
#[derive(Debug, Clone, Copy, PartialEq, Eq, Structural, Hash)]
pub struct Key(pub i32);

/// A mouse button, by its GLFW button number.
#[derive(Debug, Clone, Copy, PartialEq, Eq, Structural, Hash)]
pub struct MouseButton(pub i32);

/// The platform scan code of a key.
pub type Scancode = i32;

/// The modifier keys held during an event, as GLFW modifier bits.
#[derive(Debug, Clone, Copy, PartialEq, Eq, Structural)]
pub struct Modifiers(pub i32);

impl Modifiers {
    /// No modifier held.
    pub fn empty() -> (m: Modifiers)
        ensures
            m.0 == 0,
    {
        Modifiers(0)
    }
}

/// What happened to a key or button.
#[derive(Debug, Clone, Copy, PartialEq, Eq, Structural)]
pub enum Action {
    Release,
    Press,
    Repeat,
}

/// The window events that the input state reacts to; every other event is
/// `Other`.
#[derive(Debug, Clone, Copy, PartialEq, Eq, Structural)]
pub enum WindowEvent {
    Key(Key, Scancode, Action, Modifiers),
    MouseButton(MouseButton, Action, Modifiers),
    Other,
}

/// The new capture state and cursor mode when the player toggles mouse
/// capture: a captured cursor is released and shown, a free one is captured
/// and hidden.
pub fn toggle_capture(captured: bool) -> (r: (bool, CursorMode))
    ensures
        r == (!captured, if captured { CursorMode::Normal } else { CursorMode::Disabled }),
{
    if captured {
        (false, CursorMode::Normal)
    } else {
        (true, CursorMode::Disabled)
    }
}

} // verus!
