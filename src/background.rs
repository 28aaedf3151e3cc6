//! The scrolling star field behind the play.
use crate::common::SCREEN_HEIGHT;
use vstd::prelude::*;

verus! {

pub const FRAMES: usize = 6;

pub const SCROLL_SPEED: i32 = 1;

pub const CYCLE_PERIOD: u32 = 10;

pub struct Background {
    pub frame: u32,
    pub y: i32,
}

impl Background {
    pub open spec fn wf(&self) -> bool {
        0 <= self.y < SCREEN_HEIGHT
    }

    pub fn new() -> (r: Background)
        ensures
            r.wf(),
            r.frame == 0,
            r.y == 0,
    {
        Background { frame: 0, y: 0 }
    }

    /// The picture cycles and the field scrolls down one pixel, wrapping at
    /// the bottom of the screen.
    pub fn update(&mut self)
        requires
            old(self).wf(),
        ensures
            final(self).wf(),
            final(self).frame == if old(self).frame < u32::MAX { old(self).frame + 1 } else { 0 },
            final(self).y == (old(self).y + SCROLL_SPEED) % (SCREEN_HEIGHT as int),
    {
        self.frame = if self.frame < u32::MAX { self.frame + 1 } else { 0 };
        self.y += SCROLL_SPEED;
        if self.y >= SCREEN_HEIGHT as i32 {
            self.y -= SCREEN_HEIGHT as i32;
        }
    }

    /// Which picture of the cycle shows.
    pub fn anim_frame(&self) -> (r: usize)
        ensures
            r == (self.frame / CYCLE_PERIOD) as int % (FRAMES as int),
            r < FRAMES,
    {
        (self.frame / CYCLE_PERIOD) as usize % FRAMES
    }
}

} // verus!
