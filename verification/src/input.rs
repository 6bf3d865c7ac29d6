//! The table of held keys and the pending mouse motion.

use crate::fixed::ONE;
use crate::vector::{SpecVec3, Vec3};
use vstd::prelude::*;

verus! {

/// The factor by which sprinting multiplies the forward intent.
pub const SPRINT_MULTIPLIER: i64 = 2;

/// The keys that the input table knows, and `Other` for every other key.
#[derive(Clone, Copy, Debug, PartialEq, Eq, Structural)]
pub enum Key {
    Space,
    LShift,
    W,
    S,
    A,
    D,
    Tab,
    Up,
    Down,
    LControl,
    F,
    Other,
}

/// Whether a key went down or up.
#[derive(Clone, Copy, Debug, PartialEq, Eq, Structural)]
pub enum KeyState {
    Pressed,
    Released,
}

/// One keyboard event: the key, if the platform could name it, and what
/// happened to it.
#[derive(Clone, Copy, Debug, PartialEq, Eq, Structural)]
pub struct KeyEvent {
    pub state: KeyState,
    pub key: Option<Key>,
}

/// A mouse motion, in millionths of a pixel, that waits to be taken. It can
/// be replaced and it can be taken, and taking it leaves zero behind: no
/// motion is handed out twice.
#[derive(Debug)]
pub struct PendingMotion {
    delta: (i64, i64),
}

impl View for PendingMotion {
    type V = (int, int);

    closed spec fn view(&self) -> (int, int) {
        (self.delta.0 as int, self.delta.1 as int)
    }
}

impl PendingMotion {
    /// No motion.
    pub fn new() -> (motion: Self)
        ensures
            motion@ == (0int, 0int),
    {
        PendingMotion { delta: (0, 0) }
    }

    /// Replaces the waiting motion.
    pub fn set(&mut self, delta: (i64, i64))
        ensures
            final(self)@ == (delta.0 as int, delta.1 as int),
    {
        self.delta = delta;
    }

    /// Takes the waiting motion and leaves zero.
    pub fn take(&mut self) -> (delta: (i64, i64))
        ensures
            (delta.0 as int, delta.1 as int) == old(self)@,
            final(self)@ == (0int, 0int),
    {
        let delta = self.delta;
        self.delta = (0, 0);
        delta
    }
}

/// Which keys are held, and the mouse motion that no frame has used yet.
#[derive(Debug)]
pub struct InputState {
    pub space_pressed: bool,
    pub shift_pressed: bool,
    pub forward_pressed: bool,
    pub backward_pressed: bool,
    pub left_pressed: bool,
    pub right_pressed: bool,
    pub tab_pressed: bool,
    pub up_pressed: bool,
    pub down_pressed: bool,
    pub ctrl_pressed: bool,
    pub f_pressed: bool,
    pub unhandled_mouse_move: PendingMotion,
}

/// The mathematical value of an [`InputState`].
pub struct InputModel {
    pub space_pressed: bool,
    pub shift_pressed: bool,
    pub forward_pressed: bool,
    pub backward_pressed: bool,
    pub left_pressed: bool,
    pub right_pressed: bool,
    pub tab_pressed: bool,
    pub up_pressed: bool,
    pub down_pressed: bool,
    pub ctrl_pressed: bool,
    pub f_pressed: bool,
    pub unhandled_mouse_move: (int, int),
}

impl InputModel {
    /// No key held, no motion pending.
    pub open spec fn initial() -> InputModel {
        InputModel {
            space_pressed: false,
            shift_pressed: false,
            forward_pressed: false,
            backward_pressed: false,
            left_pressed: false,
            right_pressed: false,
            tab_pressed: false,
            up_pressed: false,
            down_pressed: false,
            ctrl_pressed: false,
            f_pressed: false,
            unhandled_mouse_move: (0, 0),
        }
    }

    /// The flag of `key` after a keyboard event: it follows the event if the
    /// event names that key, and stays as it was otherwise.
    pub open spec fn flag_after(held: bool, event: KeyEvent, key: Key) -> bool {
        if event.key == Some(key) {
            event.state == KeyState::Pressed
        } else {
            held
        }
    }

    /// The table after a keyboard event: the flag of a known key follows the
    /// event, and an unknown or unnamed key changes nothing.
    pub open spec fn record_key(self, event: KeyEvent) -> InputModel {
        InputModel {
            space_pressed: Self::flag_after(self.space_pressed, event, Key::Space),
            shift_pressed: Self::flag_after(self.shift_pressed, event, Key::LShift),
            forward_pressed: Self::flag_after(self.forward_pressed, event, Key::W),
            backward_pressed: Self::flag_after(self.backward_pressed, event, Key::S),
            left_pressed: Self::flag_after(self.left_pressed, event, Key::A),
            right_pressed: Self::flag_after(self.right_pressed, event, Key::D),
            tab_pressed: Self::flag_after(self.tab_pressed, event, Key::Tab),
            up_pressed: Self::flag_after(self.up_pressed, event, Key::Up),
            down_pressed: Self::flag_after(self.down_pressed, event, Key::Down),
            ctrl_pressed: Self::flag_after(self.ctrl_pressed, event, Key::LControl),
            f_pressed: Self::flag_after(self.f_pressed, event, Key::F),
            unhandled_mouse_move: self.unhandled_mouse_move,
        }
    }

    /// The table after a mouse motion: the new motion replaces the pending one.
    pub open spec fn record_mouse(self, delta: (int, int)) -> InputModel {
        InputModel { unhandled_mouse_move: delta, ..self }
    }

    /// Taking the pending motion: the table without it, and the motion taken.
    pub open spec fn consume(self) -> (InputModel, (int, int)) {
        (InputModel { unhandled_mouse_move: (0, 0), ..self }, self.unhandled_mouse_move)
    }

    /// Some key that moves the camera is held.
    pub open spec fn movement_key_pressed(self) -> bool {
        self.forward_pressed || self.backward_pressed || self.left_pressed || self.right_pressed
            || self.space_pressed || self.shift_pressed
    }

    /// Forward is held and backward is not, with the sprint modifier.
    pub open spec fn sprinting_forward(self) -> bool {
        self.ctrl_pressed && self.forward_pressed && !self.backward_pressed
    }

    /// The difference of two opposing keys: one, minus one, or zero when both
    /// or neither are held.
    pub open spec fn axis(plus: bool, minus: bool) -> int {
        if plus && !minus {
            ONE as int
        } else if minus && !plus {
            -(ONE as int)
        } else {
            0
        }
    }

    /// The direction in which the held keys ask to move: `x` forward, `y` up,
    /// `z` to the right. Each component is one, minus one or zero, but for
    /// the forward component, which sprinting multiplies.
    pub open spec fn movement_intent(self) -> SpecVec3 {
        SpecVec3 {
            x: if self.sprinting_forward() {
                SPRINT_MULTIPLIER * ONE
            } else {
                Self::axis(self.forward_pressed, self.backward_pressed)
            },
            y: Self::axis(self.space_pressed, self.shift_pressed),
            z: Self::axis(self.right_pressed, self.left_pressed),
        }
    }
}

/// Between two readings of the mouse motion with no motion recorded in
/// between, the second reading is zero.
pub proof fn lemma_mouse_motion_read_once(input: InputModel)
    ensures
        input.consume().0.consume().1 == (0int, 0int),
        input.consume().0.consume().0 == input.consume().0,
{
}

/// A motion recorded after a reading is what the next reading returns, whatever
/// was pending before.
pub proof fn lemma_mouse_motion_last_write_wins(
    input: InputModel,
    first: (int, int),
    second: (int, int),
)
    ensures
        input.record_mouse(first).record_mouse(second).consume().1 == second,
{
}

/// Keyboard events leave the pending mouse motion alone, and reading the
/// motion leaves the keys alone.
pub proof fn lemma_keys_and_mouse_independent(input: InputModel, event: KeyEvent)
    ensures
        input.record_key(event).unhandled_mouse_move == input.unhandled_mouse_move,
        input.consume().0.movement_intent() == input.movement_intent(),
        input.consume().0.record_key(event) == input.record_key(event).consume().0,
{
}

impl View for InputState {
    type V = InputModel;

    open spec fn view(&self) -> InputModel {
        InputModel {
            space_pressed: self.space_pressed,
            shift_pressed: self.shift_pressed,
            forward_pressed: self.forward_pressed,
            backward_pressed: self.backward_pressed,
            left_pressed: self.left_pressed,
            right_pressed: self.right_pressed,
            tab_pressed: self.tab_pressed,
            up_pressed: self.up_pressed,
            down_pressed: self.down_pressed,
            ctrl_pressed: self.ctrl_pressed,
            f_pressed: self.f_pressed,
            unhandled_mouse_move: self.unhandled_mouse_move@,
        }
    }
}

impl InputState {
    /// A table in which no key is held and no motion is pending.
    pub fn new() -> (state: Self)
        ensures
            state@ == InputModel::initial(),
    {
        InputState {
            space_pressed: false,
            shift_pressed: false,
            forward_pressed: false,
            backward_pressed: false,
            left_pressed: false,
            right_pressed: false,
            tab_pressed: false,
            up_pressed: false,
            down_pressed: false,
            ctrl_pressed: false,
            f_pressed: false,
            unhandled_mouse_move: PendingMotion::new(),
        }
    }

    /// Records a keyboard event.
    pub fn update_keyboard(&mut self, input: &KeyEvent)
        ensures
            final(self)@ == old(self)@.record_key(*input),
    {
        let pressed = match input.state {
            KeyState::Pressed => true,
            KeyState::Released => false,
        };
        if let Some(key) = input.key {
            match key {
                Key::Space => self.space_pressed = pressed,
                Key::LShift => self.shift_pressed = pressed,
                Key::W => self.forward_pressed = pressed,
                Key::S => self.backward_pressed = pressed,
                Key::A => self.left_pressed = pressed,
                Key::D => self.right_pressed = pressed,
                Key::Tab => self.tab_pressed = pressed,
                Key::Up => self.up_pressed = pressed,
                Key::Down => self.down_pressed = pressed,
                Key::LControl => self.ctrl_pressed = pressed,
                Key::F => self.f_pressed = pressed,
                Key::Other => {},
            }
        }
    }

    /// Records a mouse motion, in millionths of a pixel. It replaces a motion
    /// that was recorded before and not read.
    pub fn update_mouse(&mut self, delta: &(i64, i64))
        ensures
            final(self)@ == old(self)@.record_mouse((delta.0 as int, delta.1 as int)),
    {
        self.unhandled_mouse_move.set(*delta);
    }

    /// Takes the pending mouse motion, leaving none.
    pub fn get_unhandled_mouse_move(&mut self) -> (unhandled: (i64, i64))
        ensures
            final(self)@ == old(self)@.consume().0,
            (unhandled.0 as int, unhandled.1 as int) == old(self)@.consume().1,
    {
        self.unhandled_mouse_move.take()
    }

    /// Whether some key that moves the camera is held.
    pub fn movement_key_pressed(&self) -> (pressed: bool)
        ensures
            pressed == self@.movement_key_pressed(),
    {
        self.forward_pressed || self.backward_pressed || self.left_pressed || self.right_pressed
            || self.space_pressed || self.shift_pressed
    }

    /// The direction in which the held keys ask to move.
    pub fn movement_intent(&self) -> (intent: Vec3)
        ensures
            intent@ == self@.movement_intent(),
    {
        let x: i64 = if self.ctrl_pressed && self.forward_pressed && !self.backward_pressed {
            SPRINT_MULTIPLIER * ONE
        } else {
            axis_value(self.forward_pressed, self.backward_pressed)
        };
        Vec3 {
            x,
            y: axis_value(self.space_pressed, self.shift_pressed),
            z: axis_value(self.right_pressed, self.left_pressed),
        }
    }
}

/// The difference of two opposing keys.
fn axis_value(plus: bool, minus: bool) -> (value: i64)
    ensures
        value == InputModel::axis(plus, minus),
{
    if plus && !minus {
        ONE
    } else if minus && !plus {
        -ONE
    } else {
        0
    }
}

} // verus!
