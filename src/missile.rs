//! The player's missile: one at a time, straight up.
use crate::common::ScreenObjectArea;
use vstd::prelude::*;

verus! {

pub const MISSILE_WIDTH: u32 = 3;

pub const MISSILE_HEIGHT: u32 = 15;

pub const MISSILE_SPEED: i32 = 12;

/// Half the width of a missile: a missile is centred on its launch point.
pub const MISSILE_HALF_WIDTH: i32 = 1;

/// Missiles are launched within this distance of the origin, in pixels.
pub const MISSILE_POS_LIMIT: i32 = 100_000;

pub struct Missile {
    pub x: i32,
    pub y: i32,
    pub in_flight: bool,
}

impl Missile {
    pub open spec fn wf(&self) -> bool {
        &&& -MISSILE_POS_LIMIT <= self.x <= MISSILE_POS_LIMIT
        &&& -(MISSILE_SPEED + MISSILE_HEIGHT) <= self.y <= MISSILE_POS_LIMIT
        &&& self.in_flight ==> self.y >= -(MISSILE_HEIGHT as int)
    }

    pub open spec fn area_spec(&self) -> ScreenObjectArea {
        ScreenObjectArea {
            tl_x: self.x,
            tl_y: self.y,
            br_x: (self.x + MISSILE_WIDTH) as i32,
            br_y: (self.y + MISSILE_HEIGHT) as i32,
        }
    }

    pub fn new() -> (r: Missile)
        ensures
            r.wf(),
            !r.in_flight,
    {
        Missile { x: 0, y: 0, in_flight: false }
    }

    pub fn reset(&mut self)
        requires
            old(self).wf(),
        ensures
            final(self).wf(),
            *final(self) == (Missile { in_flight: false, ..*old(self) }),
    {
        self.in_flight = false;
    }

    /// Fires from `(from_x, from_y)`, centred, unless a missile is already
    /// in flight; reports whether it fired.
    pub fn launch(&mut self, from_x: i32, from_y: i32) -> (fired: bool)
        requires
            old(self).wf(),
            0 <= from_x <= MISSILE_POS_LIMIT,
            0 <= from_y <= MISSILE_POS_LIMIT,
        ensures
            final(self).wf(),
            fired == !old(self).in_flight,
            fired ==> *final(self) == (Missile {
                x: (from_x - MISSILE_HALF_WIDTH) as i32,
                y: (from_y - MISSILE_HEIGHT) as i32,
                in_flight: true,
            }),
            !fired ==> *final(self) == *old(self),
    {
        if !self.in_flight {
            self.x = from_x - MISSILE_HALF_WIDTH;
            self.y = from_y - MISSILE_HEIGHT as i32;
            self.in_flight = true;
            true
        } else {
            false
        }
    }

    /// A missile in flight climbs one step; one above the top of the screen is spent.
    pub fn update(&mut self)
        requires
            old(self).wf(),
        ensures
            final(self).wf(),
            final(self).x == old(self).x,
            final(self).y == if old(self).in_flight { old(self).y - MISSILE_SPEED } else { old(self).y as int },
            final(self).in_flight == (old(self).in_flight && final(self).y >= 0),
    {
        if self.in_flight {
            self.y -= MISSILE_SPEED;
        }
        if self.y < 0 {
            self.in_flight = false;
        }
    }

    pub fn area(&self) -> (r: ScreenObjectArea)
        requires
            self.wf(),
        ensures
            r == self.area_spec(),
    {
        ScreenObjectArea::new(self.x, self.y, MISSILE_WIDTH, MISSILE_HEIGHT)
    }

    pub fn flying(&self) -> (r: bool)
        ensures
            r == self.in_flight,
    {
        self.in_flight
    }

    pub fn terminate_flight(&mut self)
        requires
            old(self).wf(),
        ensures
            final(self).wf(),
            *final(self) == (Missile { in_flight: false, ..*old(self) }),
    {
        self.in_flight = false;
    }
}

} // verus!
