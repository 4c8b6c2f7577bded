//! Rectangles in atlas pixel coordinates, origin at the top left.

use vstd::prelude::*;

verus! {

/// A rectangle of pixels: its top-left corner and its size.
#[derive(Clone, Copy, Debug, PartialEq, Eq, Structural)]
pub struct Rect {
    pub x: u32,
    pub y: u32,
    pub width: u32,
    pub height: u32,
}

impl Rect {
    /// The first column to the right of the rectangle.
    pub open spec fn right(self) -> int {
        self.x + self.width
    }

    /// The first row below the rectangle.
    pub open spec fn bottom(self) -> int {
        self.y + self.height
    }

    /// Whether the pixel in column `px` of row `py` belongs to the rectangle.
    pub open spec fn covers(self, px: int, py: int) -> bool {
        self.x <= px < self.right() && self.y <= py < self.bottom()
    }

    /// Whether the rectangle lies within an area of `width` by `height`
    /// pixels.
    pub open spec fn within(self, width: int, height: int) -> bool {
        self.right() <= width && self.bottom() <= height
    }

    /// Whether the rectangle, grown by `margin` pixels on every side, still
    /// lies within an area of `width` by `height` pixels.
    pub open spec fn within_padded(self, margin: int, width: int, height: int) -> bool {
        &&& margin <= self.x
        &&& margin <= self.y
        &&& self.right() + margin <= width
        &&& self.bottom() + margin <= height
    }

    /// Whether two rectangles share a pixel once each is grown by `margin`
    /// pixels on every side.
    pub open spec fn meets_padded(self, other: Rect, margin: int) -> bool {
        &&& self.x - margin < other.right() + margin
        &&& other.x - margin < self.right() + margin
        &&& self.y - margin < other.bottom() + margin
        &&& other.y - margin < self.bottom() + margin
    }

    /// Whether two rectangles share a pixel.
    pub open spec fn meets(self, other: Rect) -> bool {
        self.meets_padded(other, 0)
    }

    pub fn new(x: u32, y: u32, width: u32, height: u32) -> (rect: Rect)
        ensures
            rect == (Rect { x, y, width, height }),
    {
        Rect { x, y, width, height }
    }

    /// Decides `within_padded`.
    pub fn fits_padded(&self, margin: u32, width: u32, height: u32) -> (fits: bool)
        ensures
            fits == self.within_padded(margin as int, width as int, height as int),
    {
        let right: u64 = self.x as u64 + self.width as u64 + margin as u64;
        let bottom: u64 = self.y as u64 + self.height as u64 + margin as u64;
        margin <= self.x && margin <= self.y && right <= width as u64 && bottom <= height as u64
    }

    /// Decides `meets_padded`.
    pub fn touches_padded(&self, other: &Rect, margin: u32) -> (touches: bool)
        ensures
            touches == self.meets_padded(*other, margin as int),
    {
        let reach: u64 = 2 * (margin as u64);
        let self_right: u64 = self.x as u64 + self.width as u64 + reach;
        let self_bottom: u64 = self.y as u64 + self.height as u64 + reach;
        let other_right: u64 = other.x as u64 + other.width as u64 + reach;
        let other_bottom: u64 = other.y as u64 + other.height as u64 + reach;
        (self.x as u64) < other_right && (other.x as u64) < self_right && (self.y as u64)
            < other_bottom && (other.y as u64) < self_bottom
    }
}

} // verus!
