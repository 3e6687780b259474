//! The live keyboard state: four independent held/released flags, set by the
//! host's key events and read once per frame. Only the latest state matters;
//! there is no event queue.
use vstd::prelude::*;

verus! {

/// One of the four directional movement keys the viewer reacts to.
#[derive(Clone, Copy, PartialEq, Eq, Structural, Debug)]
pub enum Key {
    Up,
    Down,
    Left,
    Right,
}

/// Which movement keys are currently held. The flags are independent bits:
/// chords and opposing pairs are representable.
#[derive(Clone, Copy, PartialEq, Eq, Structural, Debug)]
pub struct InputState {
    pub up: bool,
    pub down: bool,
    pub left: bool,
    pub right: bool,
}

impl InputState {
    /// The state with no key held.
    pub open spec fn spec_released() -> InputState {
        InputState { up: false, down: false, left: false, right: false }
    }

    /// Whether key `k` is held in this state.
    pub open spec fn spec_holds(self, k: Key) -> bool {
        match k {
            Key::Up => self.up,
            Key::Down => self.down,
            Key::Left => self.left,
            Key::Right => self.right,
        }
    }

    /// This state with key `k` forced to `v` and the other three unchanged.
    pub open spec fn spec_with(self, k: Key, v: bool) -> InputState {
        match k {
            Key::Up => InputState { up: v, ..self },
            Key::Down => InputState { down: v, ..self },
            Key::Left => InputState { left: v, ..self },
            Key::Right => InputState { right: v, ..self },
        }
    }

    pub fn new() -> (r: InputState)
        ensures
            r == InputState::spec_released(),
    {
        InputState { up: false, down: false, left: false, right: false }
    }

    /// A key-press event: sets that key's flag, touching nothing else.
    /// Last writer wins; a repeat of a held key changes nothing.
    pub fn key_down(&mut self, k: Key)
        ensures
            *final(self) == old(self).spec_with(k, true),
    {
        match k {
            Key::Up => self.up = true,
            Key::Down => self.down = true,
            Key::Left => self.left = true,
            Key::Right => self.right = true,
        }
    }

    /// A key-release event: clears that key's flag, touching nothing else.
    pub fn key_up(&mut self, k: Key)
        ensures
            *final(self) == old(self).spec_with(k, false),
    {
        match k {
            Key::Up => self.up = false,
            Key::Down => self.down = false,
            Key::Left => self.left = false,
            Key::Right => self.right = false,
        }
    }
}

} // verus!
