use std::collections::HashMap;

use vstd::prelude::*;

verus! {

broadcast use vstd::std_specs::hash::group_hash_axioms;

/// Buttons of a MaxFire G-12U joystick, which the gamepad library cannot
/// name; they are bound to raw button codes by calibration.
#[derive(Debug, Clone, Copy, PartialEq, Eq, Structural, Hash)]
pub enum MaxFireButton {
    /// South
    Key1,
    /// East
    Key2,
    /// West
    Key3,
    /// North
    Key4,
    /// Left top bumper
    Key5,
    /// Right top bumper
    Key6,
    /// Left bottom bumper
    Key7,
    /// Right bottom bumper
    Key8,
    /// Center left
    Key9,
    /// Center right
    Key10,
    Mode,
    LeftJoystick,
    RightJoystick,
    DPadUp,
    DPadDown,
    DPadLeft,
    DPadRight,
}

/// The two analog sticks of a MaxFire G-12U joystick.
#[derive(Debug, Clone, Copy, PartialEq, Eq, Structural, Hash)]
pub enum MaxFireAxis {
    LeftStickX,
    LeftStickY,
    RightStickX,
    RightStickY,
}

/// Identifier of a connected gamepad.
#[derive(Debug, Clone, Copy, PartialEq, Eq, Structural, Hash)]
pub struct GamepadId(pub usize);

/// A gamepad event as calibration sees it: the gamepad it comes from and,
/// for a button press, the raw code of the button.
#[derive(Debug, Clone, Copy, PartialEq, Eq, Structural)]
pub struct GamepadEvent {
    pub id: GamepadId,
    pub pressed_code: Option<u32>,
}

/// A button type that bindings can be keyed by: each button has a number
/// that no other button of the type shares.
pub trait ButtonKey: Copy {
    /// The number of the button.
    spec fn spec_key(self) -> u32;

    fn key(&self) -> (k: u32)
        ensures
            k == self.spec_key(),
    ;

    /// Different buttons have different numbers.
    proof fn lemma_key_injective(a: Self, b: Self)
        ensures
            a.spec_key() == b.spec_key() ==> a == b,
    ;
}

impl ButtonKey for MaxFireButton {
    /// The buttons are numbered in the order of their declaration.
    open spec fn spec_key(self) -> u32 {
        match self {
            MaxFireButton::Key1 => 0,
            MaxFireButton::Key2 => 1,
            MaxFireButton::Key3 => 2,
            MaxFireButton::Key4 => 3,
            MaxFireButton::Key5 => 4,
            MaxFireButton::Key6 => 5,
            MaxFireButton::Key7 => 6,
            MaxFireButton::Key8 => 7,
            MaxFireButton::Key9 => 8,
            MaxFireButton::Key10 => 9,
            MaxFireButton::Mode => 10,
            MaxFireButton::LeftJoystick => 11,
            MaxFireButton::RightJoystick => 12,
            MaxFireButton::DPadUp => 13,
            MaxFireButton::DPadDown => 14,
            MaxFireButton::DPadLeft => 15,
            MaxFireButton::DPadRight => 16,
        }
    }

    fn key(&self) -> (k: u32) {
        match self {
            MaxFireButton::Key1 => 0,
            MaxFireButton::Key2 => 1,
            MaxFireButton::Key3 => 2,
            MaxFireButton::Key4 => 3,
            MaxFireButton::Key5 => 4,
            MaxFireButton::Key6 => 5,
            MaxFireButton::Key7 => 6,
            MaxFireButton::Key8 => 7,
            MaxFireButton::Key9 => 8,
            MaxFireButton::Key10 => 9,
            MaxFireButton::Mode => 10,
            MaxFireButton::LeftJoystick => 11,
            MaxFireButton::RightJoystick => 12,
            MaxFireButton::DPadUp => 13,
            MaxFireButton::DPadDown => 14,
            MaxFireButton::DPadLeft => 15,
            MaxFireButton::DPadRight => 16,
        }
    }

    proof fn lemma_key_injective(a: Self, b: Self) {
    }
}

/// Persisted button-to-code bindings for a device whose buttons the gamepad
/// library cannot name, captured once by calibration. Entries are keyed by
/// the button's number and keep the button itself for persisting.
pub struct GamepadBindings<B: ButtonKey> {
    codes: HashMap<u32, (B, u32)>,
}

impl<B: ButtonKey> GamepadBindings<B> {
    /// Each entry is stored under its own button's number.
    #[verifier::type_invariant]
    spec fn keyed_by_button(self) -> bool {
        forall|k: u32| #[trigger] self.codes@.contains_key(k) ==> self.codes@[k].0.spec_key() == k
    }
}

impl<B: ButtonKey> View for GamepadBindings<B> {
    type V = Map<u32, u32>;

    /// The code bound to each bound button, by button number.
    closed spec fn view(&self) -> Map<u32, u32> {
        Map::new(|k: u32| self.codes@.contains_key(k), |k: u32| self.codes@[k].1)
    }
}

impl<B: ButtonKey> Default for GamepadBindings<B> {
    /// No button is bound.
    fn default() -> (b: Self)
        ensures
            b@ == Map::<u32, u32>::empty(),
    {
        let b = GamepadBindings { codes: HashMap::new() };
        assert(b@ =~= Map::<u32, u32>::empty());
        b
    }
}

impl<B: ButtonKey> GamepadBindings<B> {
    /// Binds `button` to the raw `code`, replacing an earlier binding.
    pub fn bind(&mut self, button: B, code: u32)
        ensures
            final(self)@ == old(self)@.insert(button.spec_key(), code),
    {
        proof {
            use_type_invariant(&*self);
        }
        let k = button.key();
        let ghost before = self.codes@;
        let mut codes: HashMap<u32, (B, u32)> = HashMap::new();
        std::mem::swap(&mut codes, &mut self.codes);
        codes.insert(k, (button, code));
        proof {
            assert forall|j: u32| #[trigger] codes@.contains_key(j) implies codes@[j].0.spec_key() == j by {
                if j != k {
                    assert(before.contains_key(j));
                }
            }
        }
        self.codes = codes;
        proof {
            assert(self@ =~= old(self)@.insert(button.spec_key(), code));
        }
    }

    /// Whether `button` has a binding.
    pub fn is_bound(&self, button: B) -> (r: bool)
        ensures
            r == self@.contains_key(button.spec_key()),
    {
        let k = button.key();
        self.codes.contains_key(&k)
    }

    /// The raw code bound to `button`, if any.
    pub fn code_of(&self, button: B) -> (code: Option<u32>)
        ensures
            code == (if self@.contains_key(button.spec_key()) {
                Some(self@[button.spec_key()])
            } else {
                None
            }),
    {
        let k = button.key();
        match self.codes.get(&k) {
            Some(entry) => Some(entry.1),
            None => None,
        }
    }

    /// Every binding, keyed by button number, each with its button, for
    /// persisting them.
    pub fn codes(&self) -> (codes: &HashMap<u32, (B, u32)>)
        ensures
            forall|k: u32| #[trigger] codes@.contains_key(k) == self@.contains_key(k),
            forall|k: u32| #[trigger] codes@.contains_key(k) ==> codes@[k].0.spec_key() == k
                && codes@[k].1 == self@[k],
    {
        proof {
            use_type_invariant(self);
        }
        &self.codes
    }
}

/// Calibration state of the gamepads: capturing the raw code of the next
/// button pressed on one gamepad.
pub struct Gamepads {
    calibrating: Option<GamepadId>,
    captured: Option<u32>,
}

/// Abstract value of [`Gamepads`]: the gamepad being listened to, if any,
/// and the code captured so far, if any.
pub struct GamepadsView {
    pub calibrating: Option<GamepadId>,
    pub captured: Option<u32>,
}

impl View for Gamepads {
    type V = GamepadsView;

    closed spec fn view(&self) -> GamepadsView {
        GamepadsView { calibrating: self.calibrating, captured: self.captured }
    }
}

/// Whether `event` is a button press on gamepad `target`.
pub open spec fn captures(target: Option<GamepadId>, event: GamepadEvent) -> bool {
    target is Some && event.pressed_code is Some && event.id == target.unwrap()
}

/// The calibration state after one event: a press on the gamepad being
/// listened to captures its code and ends listening; anything else changes
/// nothing.
pub open spec fn poll_step(state: GamepadsView, event: GamepadEvent) -> GamepadsView {
    if captures(state.calibrating, event) {
        GamepadsView { calibrating: None, captured: event.pressed_code }
    } else {
        state
    }
}

/// The calibration state after `events`, taken one by one.
pub open spec fn polled(state: GamepadsView, events: Seq<GamepadEvent>) -> GamepadsView
    decreases events.len(),
{
    if events.len() == 0 {
        state
    } else {
        poll_step(polled(state, events.drop_last()), events.last())
    }
}

/// Polling events none of which is a press on the gamepad being listened to
/// (in particular, polling while not listening) changes nothing.
pub proof fn lemma_poll_without_capture(state: GamepadsView, events: Seq<GamepadEvent>)
    requires
        forall|i: int| 0 <= i < events.len() ==> !#[trigger] captures(state.calibrating, events[i]),
    ensures
        polled(state, events) == state,
    decreases events.len(),
{
    if events.len() > 0 {
        let d = events.drop_last();
        assert forall|i: int| 0 <= i < d.len() implies !#[trigger] captures(state.calibrating, d[i]) by {
            assert(d[i] == events[i]);
        }
        lemma_poll_without_capture(state, d);
        assert(!captures(state.calibrating, events[events.len() - 1]));
    }
}

/// Calibration captures the first press, in the polled events, on the
/// gamepad being listened to, and ends listening; later presses are not
/// captured.
pub proof fn lemma_poll_captures_first_press(state: GamepadsView, events: Seq<GamepadEvent>, j: int)
    requires
        0 <= j < events.len(),
        captures(state.calibrating, events[j]),
        forall|k: int| 0 <= k < j ==> !#[trigger] captures(state.calibrating, events[k]),
    ensures
        polled(state, events) == (GamepadsView { calibrating: None, captured: events[j].pressed_code }),
    decreases events.len(),
{
    let d = events.drop_last();
    if j == events.len() - 1 {
        assert forall|k: int| 0 <= k < d.len() implies !#[trigger] captures(state.calibrating, d[k]) by {
            assert(d[k] == events[k]);
        }
        lemma_poll_without_capture(state, d);
    } else {
        assert forall|k: int| 0 <= k < j implies !#[trigger] captures(state.calibrating, d[k]) by {
            assert(d[k] == events[k]);
        }
        assert(d[j] == events[j]);
        lemma_poll_captures_first_press(state, d, j);
    }
}

/// Polling two batches of events one after the other is polling them as
/// one batch.
pub proof fn lemma_poll_concat(state: GamepadsView, a: Seq<GamepadEvent>, b: Seq<GamepadEvent>)
    ensures
        polled(polled(state, a), b) == polled(state, a + b),
    decreases b.len(),
{
    if b.len() == 0 {
        assert(a + b =~= a);
    } else {
        lemma_poll_concat(state, a, b.drop_last());
        assert((a + b).drop_last() =~= a + b.drop_last());
        assert((a + b).last() == b.last());
    }
}

/// Once calibration is armed on `id`, the events polled since (in one or
/// more polls, taken together) decide what is captured: the code of the
/// first press on `id`, which ends listening, or nothing, with listening
/// still on, when no button was pressed on `id`.
pub proof fn lemma_calibration_outcome(id: GamepadId, events: Seq<GamepadEvent>)
    ensures
        ({
            let armed = GamepadsView { calibrating: Some(id), captured: None };
            &&& (forall|i: int| 0 <= i < events.len() ==> !#[trigger] captures(Some(id), events[i]))
                ==> polled(armed, events) == armed
            &&& forall|j: int| 0 <= j < events.len() && #[trigger] captures(Some(id), events[j])
                && (forall|k: int| 0 <= k < j ==> !#[trigger] captures(Some(id), events[k]))
                ==> polled(armed, events) == (GamepadsView { calibrating: None, captured: events[j].pressed_code })
        }),
{
    let armed = GamepadsView { calibrating: Some(id), captured: None };
    if forall|i: int| 0 <= i < events.len() ==> !#[trigger] captures(Some(id), events[i]) {
        lemma_poll_without_capture(armed, events);
    }
    assert forall|j: int| 0 <= j < events.len() && #[trigger] captures(Some(id), events[j])
        && (forall|k: int| 0 <= k < j ==> !#[trigger] captures(Some(id), events[k]))
        implies polled(armed, events) == (GamepadsView { calibrating: None, captured: events[j].pressed_code }) by {
        lemma_poll_captures_first_press(armed, events, j);
    }
}

impl Gamepads {
    /// Not listening, nothing captured.
    pub fn new() -> (g: Gamepads)
        ensures
            g@.calibrating is None,
            g@.captured is None,
    {
        Gamepads { calibrating: None, captured: None }
    }

    /// Arms calibration: the next button pressed on `id` is captured.
    pub fn begin_calibration(&mut self, id: GamepadId)
        ensures
            final(self)@.calibrating == Some(id),
            final(self)@.captured is None,
    {
        self.calibrating = Some(id);
        self.captured = None;
    }

    /// The code captured since calibration began, if a button has been
    /// pressed yet; it is handed out once.
    pub fn take_calibrated_code(&mut self) -> (code: Option<u32>)
        ensures
            code == old(self)@.captured,
            final(self)@.captured is None,
            final(self)@.calibrating == old(self)@.calibrating,
    {
        self.captured.take()
    }

    /// Processes pending events in order: the first press on the gamepad
    /// being listened to is captured and ends listening.
    pub fn poll_events(&mut self, events: &[GamepadEvent])
        ensures
            final(self)@ == polled(old(self)@, events@),
            forall|j: int| 0 <= j < events@.len() && #[trigger] captures(old(self)@.calibrating, events@[j])
                && (forall|k: int| 0 <= k < j ==> !#[trigger] captures(old(self)@.calibrating, events@[k]))
                ==> final(self)@ == (GamepadsView { calibrating: None, captured: events@[j].pressed_code }),
            (forall|i: int| 0 <= i < events@.len() ==> !#[trigger] captures(old(self)@.calibrating, events@[i]))
                ==> final(self)@ == old(self)@,
    {
        let n = events.len();
        let mut k: usize = 0;
        while k < n
            invariant
                n == events@.len(),
                k <= n,
                self@ == polled(old(self)@, events@.take(k as int)),
            decreases n - k,
        {
            let event = events[k];
            proof {
                let t = events@.take(k as int + 1);
                assert(t.drop_last() =~= events@.take(k as int));
                assert(t.last() == event);
            }
            if let (Some(target_id), Some(code)) = (self.calibrating, event.pressed_code) {
                if event.id == target_id {
                    self.captured = Some(code);
                    self.calibrating = None;
                }
            }
            k = k + 1;
        }
        proof {
            assert(events@.take(n as int) =~= events@);
            let s0 = old(self)@;
            assert forall|j: int| 0 <= j < events@.len() && #[trigger] captures(s0.calibrating, events@[j])
                && (forall|k: int| 0 <= k < j ==> !#[trigger] captures(s0.calibrating, events@[k]))
                implies polled(s0, events@) == (GamepadsView { calibrating: None, captured: events@[j].pressed_code }) by {
                lemma_poll_captures_first_press(s0, events@, j);
            }
            if forall|i: int| 0 <= i < events@.len() ==> !#[trigger] captures(s0.calibrating, events@[i]) {
                lemma_poll_without_capture(s0, events@);
            }
        }
    }

    /// Whether `button` is held on a gamepad, resolved through its binding:
    /// `buttons` is the gamepad's button state (code, pressed) when it is
    /// connected. An unbound button or a disconnected gamepad gives `false`.
    pub fn is_bound_pressed<B: ButtonKey>(
        &self,
        bindings: &GamepadBindings<B>,
        button: B,
        buttons: Option<&[(u32, bool)]>,
    ) -> (r: bool)
        ensures
            r == (bindings@.contains_key(button.spec_key()) && buttons is Some
                && code_pressed(buttons.unwrap()@, bindings@[button.spec_key()])),
    {
        let target = match bindings.code_of(button) {
            Some(c) => c,
            None => return false,
        };
        match buttons {
            None => false,
            Some(state) => first_code_pressed(target, state),
        }
    }
}

/// Button `i` is the first with code `code`, and it is pressed.
pub open spec fn first_with_code_pressed(buttons: Seq<(u32, bool)>, code: u32, i: int) -> bool {
    &&& 0 <= i < buttons.len()
    &&& buttons[i].0 == code
    &&& buttons[i].1
    &&& forall|j: int| 0 <= j < i ==> (#[trigger] buttons[j]).0 != code
}

/// Whether the first of a gamepad's buttons with code `code` is pressed.
pub open spec fn code_pressed(buttons: Seq<(u32, bool)>, code: u32) -> bool {
    exists|i: int| #[trigger] first_with_code_pressed(buttons, code, i)
}

/// Whether the first button with code `target` in a gamepad's button state
/// is pressed; `false` when no button has that code.
fn first_code_pressed(target: u32, buttons: &[(u32, bool)]) -> (r: bool)
    ensures
        r == code_pressed(buttons@, target),
{
    let n = buttons.len();
    let mut i: usize = 0;
    while i < n
        invariant
            n == buttons@.len(),
            i <= n,
            forall|j: int| 0 <= j < i ==> (#[trigger] buttons@[j]).0 != target,
        decreases n - i,
    {
        let (code, pressed) = buttons[i];
        if code == target {
            proof {
                if pressed {
                    assert(first_with_code_pressed(buttons@, target, i as int));
                } else {
                    assert forall|x: int| !#[trigger] first_with_code_pressed(buttons@, target, x) by {
                        if first_with_code_pressed(buttons@, target, x) {
                            if x > i {
                                assert(buttons@[i as int].0 == target);
                            } else if x < i {
                                assert(buttons@[x].0 != target);
                            }
                        }
                    }
                }
            }
            return pressed;
        }
        i = i + 1;
    }
    proof {
        assert forall|x: int| !#[trigger] first_with_code_pressed(buttons@, target, x) by {}
    }
    false
}

} // verus!
