//! The four movement keys, the directions they stand for, and how a
//! keyboard event changes which keys count as held.

use vstd::prelude::*;

verus! {

/// Which of the four movement keys are held down right now.
///
/// The flags are independent, so any of them can be set together.
#[derive(Clone, Copy, Debug, PartialEq, Eq, Structural)]
pub struct Keys {
    /// Up.
    pub w: bool,
    /// Left.
    pub a: bool,
    /// Down.
    pub s: bool,
    /// Right.
    pub d: bool,
}

/// One of the four ways the player can face.
#[derive(Clone, Copy, Debug, PartialEq, Eq, Structural, Hash)]
pub enum Direction {
    Up,
    Down,
    Left,
    Right,
}

/// A key as far as movement cares: one of the four, or anything else.
#[derive(Clone, Copy, Debug, PartialEq, Eq, Structural)]
pub enum Key {
    W,
    A,
    S,
    D,
    Other,
}

/// An input event as far as movement cares.
///
/// `keycode` is `None` where the platform could not name the key.
#[derive(Clone, Copy, Debug, PartialEq, Eq, Structural)]
pub enum InputEvent {
    KeyDown { keycode: Option<Key> },
    KeyUp { keycode: Option<Key> },
    Other,
}

impl Keys {
    /// No key held.
    pub open spec fn released() -> Keys {
        Keys { w: false, a: false, s: false, d: false }
    }

    /// The flags with the one for `key` set to `held`; `Key::Other` changes
    /// nothing.
    pub open spec fn with_key(self, key: Key, held: bool) -> Keys {
        match key {
            Key::W => Keys { w: held, ..self },
            Key::A => Keys { a: held, ..self },
            Key::S => Keys { s: held, ..self },
            Key::D => Keys { d: held, ..self },
            Key::Other => self,
        }
    }

    /// The flags after `event`: a press sets the key's flag, a release
    /// clears it, and every other event leaves all four as they were.
    pub open spec fn after(self, event: InputEvent) -> Keys {
        match event {
            InputEvent::KeyDown { keycode: Some(key) } => self.with_key(key, true),
            InputEvent::KeyUp { keycode: Some(key) } => self.with_key(key, false),
            _ => self,
        }
    }

    /// Whether any movement key is held.
    pub open spec fn any(self) -> bool {
        self.w || self.a || self.s || self.d
    }

    /// All four keys released.
    pub fn new() -> (keys: Keys)
        ensures
            keys == Keys::released(),
    {
        Keys { w: false, a: false, s: false, d: false }
    }
}

/// Applies one input event to the held-key flags.
pub fn key_handler(event: InputEvent, keys: &mut Keys)
    ensures
        *final(keys) == old(keys).after(event),
{
    match event {
        InputEvent::KeyDown { keycode: Some(Key::W) } => {
            keys.w = true;
        },
        InputEvent::KeyDown { keycode: Some(Key::A) } => {
            keys.a = true;
        },
        InputEvent::KeyDown { keycode: Some(Key::S) } => {
            keys.s = true;
        },
        InputEvent::KeyDown { keycode: Some(Key::D) } => {
            keys.d = true;
        },
        InputEvent::KeyUp { keycode: Some(Key::W) } => {
            keys.w = false;
        },
        InputEvent::KeyUp { keycode: Some(Key::A) } => {
            keys.a = false;
        },
        InputEvent::KeyUp { keycode: Some(Key::S) } => {
            keys.s = false;
        },
        InputEvent::KeyUp { keycode: Some(Key::D) } => {
            keys.d = false;
        },
        _ => (),
    }
}

} // verus!
