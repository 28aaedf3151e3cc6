use vstd::prelude::*;

verus! {

pub const SCREEN_WIDTH: u32 = 600;

pub const SCREEN_HEIGHT: u32 = 700;

pub const UPDATE_FPS: u32 = 60;

/// A claim on one brick of a grid: the brick's pixel position and its id.
#[derive(Clone, Copy, PartialEq, Eq, Structural, Debug)]
pub struct TargetBrick {
    pub x: i32,
    pub y: i32,
    pub brick_id: usize,
}

/// An axis-aligned rectangle, by its top-left and bottom-right corners.
#[derive(Clone, Copy, PartialEq, Eq, Structural, Debug)]
pub struct ScreenObjectArea {
    pub tl_x: i32,
    pub tl_y: i32,
    pub br_x: i32,
    pub br_y: i32,
}

impl ScreenObjectArea {
    /// The two rectangles share some interior point.
    pub open spec fn overlaps(self, other: ScreenObjectArea) -> bool {
        &&& other.br_x > self.tl_x
        &&& other.tl_x < self.br_x
        &&& other.br_y > self.tl_y
        &&& other.tl_y < self.br_y
    }

    pub fn new(x: i32, y: i32, w: u32, h: u32) -> (r: ScreenObjectArea)
        requires
            w <= i32::MAX,
            h <= i32::MAX,
            x + w <= i32::MAX,
            y + h <= i32::MAX,
        ensures
            r.tl_x == x,
            r.tl_y == y,
            r.br_x == x + w,
            r.br_y == y + h,
    {
        ScreenObjectArea { tl_x: x, tl_y: y, br_x: x + w as i32, br_y: y + h as i32 }
    }

    pub fn collides(&self, col_area: ScreenObjectArea) -> (r: bool)
        ensures
            r == self.overlaps(col_area),
    {
        col_area.br_x > self.tl_x && col_area.tl_x < self.br_x && col_area.br_y > self.tl_y
            && col_area.tl_y < self.br_y
    }
}

} // verus!
