//! The sizes of the screen, and the pace of the game: sixty frames a
//! second, whatever the machine's own pace.
//!
//! Time that has passed is added up. Whenever a frame's worth has been
//! added up, one frame is due and a frame's worth is taken off again, so
//! after a slow stretch frames follow each other until the time is used up.
//! None is left out.

use vstd::prelude::*;

verus! {

/// Frames per second.
pub const FPS: u128 = 60;

/// Nanoseconds per frame.
pub const DRAW_INTERVAL: u128 = 1_000_000_000 / FPS;

/// Frames between two changes of the walking player's picture.
pub const SPRITE_INTERVAL: u32 = 12;

/// Side of a tile's picture, in pixels.
pub const ORIGINAL_TILE_SIZE: u32 = 16;

/// How many times larger a tile is drawn than its picture.
pub const SCALE: u32 = 3;

/// Side of a tile on the screen, in pixels.
pub const TILE_SIZE: u32 = ORIGINAL_TILE_SIZE * SCALE;

/// Columns of tiles that the screen holds.
pub const MAX_SCREEN_COL: u32 = 16;

/// Rows of tiles that the screen holds.
pub const MAX_SCREEN_ROW: u32 = 12;

/// Width of the screen, in pixels.
pub const SCREEN_WIDTH: u32 = TILE_SIZE * MAX_SCREEN_COL;

/// Height of the screen, in pixels.
pub const SCREEN_HEIGHT: u32 = TILE_SIZE * MAX_SCREEN_ROW;

/// What the game loop is to do next.
#[derive(Clone, Copy, Debug, PartialEq, Eq, Structural)]
pub enum Step {
    /// Run one frame: take the input, update, draw. `change_sprite` says
    /// whether the walking player's picture is to change in it.
    Frame { change_sprite: bool },
    /// Read the clock and report the time that has passed since the last
    /// reading.
    Wait,
}

/// The time added up and not yet used for frames, and the frames counted
/// since the walking player's picture last changed.
pub struct FrameClock {
    delta: u128,
    sprite_counter: u32,
}

impl FrameClock {
    /// Nanoseconds added up and not yet used.
    pub closed spec fn delta(&self) -> u128 {
        self.delta
    }

    /// Frames counted since the picture last changed.
    pub closed spec fn sprite_counter(&self) -> u32 {
        self.sprite_counter
    }

    /// Whether a frame is due.
    pub open spec fn frame_due(&self) -> bool {
        self.delta() >= DRAW_INTERVAL
    }

    /// Whether the picture changes in the frame that is run now.
    pub open spec fn sprite_due(&self) -> bool {
        self.sprite_counter() >= SPRITE_INTERVAL
    }

    /// A clock with no time added up and no frame counted.
    pub fn new() -> (clock: FrameClock)
        ensures
            clock.delta() == 0,
            clock.sprite_counter() == 0,
    {
        FrameClock { delta: 0, sprite_counter: 0 }
    }

    /// Whether `elapsed` more nanoseconds can be added up.
    pub fn can_add(&self, elapsed: u128) -> (fits: bool)
        ensures
            fits == (self.delta() + elapsed <= u128::MAX),
    {
        elapsed <= u128::MAX - self.delta
    }

    /// Adds up the `elapsed` nanoseconds that have passed.
    pub fn add_elapsed(&mut self, elapsed: u128)
        requires
            old(self).delta() + elapsed <= u128::MAX,
        ensures
            final(self).delta() == old(self).delta() + elapsed,
            final(self).sprite_counter() == old(self).sprite_counter(),
    {
        self.delta += elapsed;
    }

    /// Says what to do next. Where a frame is due, a frame's worth of time
    /// is used up and the frame is counted: the picture changes in the
    /// frame after twelve that left it as it was.
    pub fn next_step(&mut self) -> (step: Step)
        ensures
            step == if old(self).frame_due() {
                Step::Frame { change_sprite: old(self).sprite_due() }
            } else {
                Step::Wait
            },
            final(self).delta() == if old(self).frame_due() {
                old(self).delta() - DRAW_INTERVAL
            } else {
                old(self).delta() as int
            },
            final(self).sprite_counter() == if !old(self).frame_due() {
                old(self).sprite_counter() as int
            } else if old(self).sprite_due() {
                0
            } else {
                old(self).sprite_counter() + 1
            },
    {
        if self.delta >= DRAW_INTERVAL {
            let change_sprite = if self.sprite_counter >= SPRITE_INTERVAL {
                self.sprite_counter = 0;
                true
            } else {
                self.sprite_counter += 1;
                false
            };
            self.delta -= DRAW_INTERVAL;
            Step::Frame { change_sprite }
        } else {
            Step::Wait
        }
    }
}

} // verus!
