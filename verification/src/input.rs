//! What the keys that are held down ask for.

use vstd::prelude::*;

verus! {

/// A key that the input takes note of, or any other.
#[derive(Clone, Copy, Debug, PartialEq, Eq, Structural)]
pub enum Key {
    Escape,
    Left,
    Right,
    Up,
    Down,
    Other,
}

/// Which of the keys are held down.
#[derive(Clone, Copy, Debug, PartialEq, Eq, Structural)]
pub struct Input {
    pub left: bool,
    pub right: bool,
    pub up: bool,
    pub down: bool,
    pub activate: bool,
}

impl Input {
    /// The input after `key` went down (`pressed`) or up.
    pub open spec fn after(self, key: Key, pressed: bool) -> Input {
        match key {
            Key::Left => Input { left: pressed, ..self },
            Key::Right => Input { right: pressed, ..self },
            Key::Up => Input { up: pressed, ..self },
            Key::Down => Input { down: pressed, ..self },
            _ => self,
        }
    }

    /// The step along one axis: forward where the forward key is held,
    /// else backward where the backward key is held, else none.
    pub open spec fn axis(forward: bool, backward: bool) -> int {
        if forward {
            1
        } else if backward {
            -1
        } else {
            0
        }
    }

    /// No key is held.
    pub fn new() -> (input: Input)
        ensures
            input == (Input { left: false, right: false, up: false, down: false, activate: false }),
    {
        Input { left: false, right: false, up: false, down: false, activate: false }
    }

    /// Takes note of a key that went down or up. Returns whether the key
    /// asks to leave: Escape does, when it goes down.
    pub fn key(&mut self, key: Key, pressed: bool) -> (leave: bool)
        ensures
            *final(self) == old(self).after(key, pressed),
            leave == (key == Key::Escape && pressed),
    {
        match key {
            Key::Escape => {
                return pressed;
            },
            Key::Left => {
                self.left = pressed;
            },
            Key::Right => {
                self.right = pressed;
            },
            Key::Up => {
                self.up = pressed;
            },
            Key::Down => {
                self.down = pressed;
            },
            Key::Other => {},
        }
        false
    }

    /// The steps that the focus takes to the right and upward.
    pub fn heading(&self) -> (step: (i8, i8))
        ensures
            step.0 == Input::axis(self.right, self.left),
            step.1 == Input::axis(self.up, self.down),
    {
        let across: i8 = if self.right {
            1
        } else if self.left {
            -1
        } else {
            0
        };
        let along: i8 = if self.up {
            1
        } else if self.down {
            -1
        } else {
            0
        };
        (across, along)
    }
}

} // verus!
