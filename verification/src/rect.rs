//! Rectangles as the renderer keeps them.

use vstd::prelude::*;

verus! {

/// A rectangle on the screen, with the values the renderer keeps for it.
///
/// The renderer does not keep every rectangle it is asked for: it pulls
/// positions into a middle range and sides into a positive one. A
/// `ScreenRect` made by [`ScreenRect::new`] holds the values after that.
#[derive(Clone, Copy, Debug, PartialEq, Eq, Structural)]
pub struct ScreenRect {
    pub x: i32,
    pub y: i32,
    pub width: u32,
    pub height: u32,
}

/// The smallest position the renderer keeps.
pub open spec fn min_position() -> int {
    -0x4000_0000
}

/// The largest position, and the largest side, the renderer keeps.
pub open spec fn max_value() -> int {
    0x3fff_ffff
}

/// The position the renderer keeps for `value`.
pub open spec fn clamp_position(value: int) -> int {
    if value > max_value() {
        max_value()
    } else if value < min_position() {
        min_position()
    } else {
        value
    }
}

/// The side the renderer keeps for `value`: never zero, never above the
/// largest.
pub open spec fn clamp_size(value: int) -> int {
    if value == 0 {
        1
    } else if value > max_value() {
        max_value()
    } else {
        value
    }
}

/// Calls `sdl3::rect::Rect::new` and reads the rectangle back through `x`,
/// `y`, `width` and `height`.
///
/// Trusted: that the rectangle holds each position pulled into
/// `min_position()..=max_value()`, and each side with zero replaced by one
/// and anything above `max_value()` by `max_value()`.
#[verifier::external_body]
fn renderer_rect(x: i32, y: i32, width: u32, height: u32) -> (rect: ScreenRect)
    ensures
        rect.x == clamp_position(x as int),
        rect.y == clamp_position(y as int),
        rect.width == clamp_size(width as int),
        rect.height == clamp_size(height as int),
{
    let rect = sdl3::rect::Rect::new(x, y, width, height);
    ScreenRect { x: rect.x(), y: rect.y(), width: rect.width(), height: rect.height() }
}

impl ScreenRect {
    /// The rectangle the renderer keeps when asked for one at `x`, `y` of
    /// `width` by `height`.
    pub open spec fn kept_for(x: int, y: int, width: int, height: int) -> ScreenRect {
        ScreenRect {
            x: clamp_position(x) as i32,
            y: clamp_position(y) as i32,
            width: clamp_size(width) as u32,
            height: clamp_size(height) as u32,
        }
    }

    /// Whether the renderer keeps this rectangle as it is.
    pub open spec fn kept(self) -> bool {
        &&& min_position() <= self.x <= max_value()
        &&& min_position() <= self.y <= max_value()
        &&& 1 <= self.width <= max_value()
        &&& 1 <= self.height <= max_value()
    }

    /// The rectangle the renderer keeps when asked for one at `x`, `y` of
    /// `width` by `height`.
    pub fn new(x: i32, y: i32, width: u32, height: u32) -> (rect: ScreenRect)
        ensures
            rect == ScreenRect::kept_for(x as int, y as int, width as int, height as int),
            rect.kept(),
            (ScreenRect { x, y, width, height }).kept() ==> rect == (ScreenRect {
                x,
                y,
                width,
                height,
            }),
    {
        renderer_rect(x, y, width, height)
    }
}

} // verus!
