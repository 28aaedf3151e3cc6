//! The bounded pool of bombs that spiders drop on the player.
use crate::common::{ScreenObjectArea, SCREEN_HEIGHT};
use vstd::prelude::*;

verus! {

pub const BOMB_WIDTH: u32 = 3;

pub const BOMB_HEIGHT: u32 = 15;

pub const BOMB_SPEED: i32 = 4;

/// Half the width of a bomb: a released bomb is centred on its origin.
pub const BOMB_HALF_WIDTH: i32 = 1;

pub const MAX_BOMBS: usize = 4;

/// Bombs are released and kept within this distance of the origin, in pixels.
pub const BOMB_POS_LIMIT: i32 = 10_000_000;

#[derive(Clone, Copy, PartialEq, Eq, Structural, Debug)]
pub struct Bomb {
    pub x: i32,
    pub y: i32,
    pub in_flight: bool,
}

impl Bomb {
    pub open spec fn wf(&self) -> bool {
        &&& -BOMB_POS_LIMIT <= self.x <= BOMB_POS_LIMIT
        &&& -BOMB_POS_LIMIT <= self.y <= BOMB_POS_LIMIT
        &&& self.in_flight ==> self.y <= BOMB_POS_LIMIT - BOMB_SPEED
    }

    pub open spec fn area_spec(&self) -> ScreenObjectArea {
        ScreenObjectArea {
            tl_x: self.x,
            tl_y: self.y,
            br_x: (self.x + BOMB_WIDTH) as i32,
            br_y: (self.y + BOMB_HEIGHT) as i32,
        }
    }

    pub fn area(&self) -> (r: ScreenObjectArea)
        requires
            self.wf(),
        ensures
            r == self.area_spec(),
    {
        ScreenObjectArea::new(self.x, self.y, BOMB_WIDTH, BOMB_HEIGHT)
    }

    /// One tick of fall; a bomb that reaches the bottom of the screen is spent.
    pub fn update(&mut self)
        requires
            old(self).wf(),
        ensures
            final(self).wf(),
            final(self).x == old(self).x,
            old(self).in_flight ==> final(self).y == old(self).y + BOMB_SPEED && final(self).in_flight
                == (final(self).y < SCREEN_HEIGHT),
            !old(self).in_flight ==> *final(self) == *old(self),
    {
        if self.in_flight {
            self.y += BOMB_SPEED;
            self.in_flight = self.y < SCREEN_HEIGHT as i32;
        }
    }
}

pub struct Bombs {
    pub bomb: Vec<Bomb>,
}

/// Index of the first slot that is not in flight, if any.
pub open spec fn first_inert(b: Seq<Bomb>, from: int) -> Option<int>
    decreases b.len() - from,
{
    if from < 0 || from >= b.len() {
        None
    } else if !b[from].in_flight {
        Some(from)
    } else {
        first_inert(b, from + 1)
    }
}

/// Index of the first bomb in flight whose area overlaps `area`, if any.
pub open spec fn first_hit(b: Seq<Bomb>, area: ScreenObjectArea, from: int) -> Option<int>
    decreases b.len() - from,
{
    if from < 0 || from >= b.len() {
        None
    } else if b[from].in_flight && area.overlaps(b[from].area_spec()) {
        Some(from)
    } else {
        first_hit(b, area, from + 1)
    }
}

pub proof fn lemma_first_inert(b: Seq<Bomb>, from: int)
    ensures
        first_inert(b, from) matches Some(k) ==> from <= k < b.len() && !b[k].in_flight,
    decreases b.len() - from,
{
    if 0 <= from < b.len() && b[from].in_flight {
        lemma_first_inert(b, from + 1);
    }
}

pub proof fn lemma_first_hit(b: Seq<Bomb>, area: ScreenObjectArea, from: int)
    ensures
        first_hit(b, area, from) matches Some(k) ==> from <= k < b.len(),
    decreases b.len() - from,
{
    if 0 <= from < b.len() && !(b[from].in_flight && area.overlaps(b[from].area_spec())) {
        lemma_first_hit(b, area, from + 1);
    }
}

impl Bombs {
    pub open spec fn wf(&self) -> bool {
        &&& self.bomb@.len() == MAX_BOMBS
        &&& forall|i: int| 0 <= i < MAX_BOMBS ==> (#[trigger] self.bomb@[i]).wf()
    }

    pub fn new() -> (r: Bombs)
        ensures
            r.wf(),
            forall|i: int| 0 <= i < MAX_BOMBS ==> !(#[trigger] r.bomb@[i]).in_flight,
    {
        Bombs { bomb: vec![Bomb { x: 0, y: 0, in_flight: false }; MAX_BOMBS] }
    }

    /// Retires every bomb.
    pub fn reset(&mut self)
        requires
            old(self).wf(),
        ensures
            final(self).wf(),
            forall|i: int|
                0 <= i < MAX_BOMBS ==> #[trigger] final(self).bomb@[i] == (Bomb {
                    in_flight: false,
                    ..old(self).bomb@[i]
                }),
    {
        let mut i: usize = 0;
        while i < MAX_BOMBS
            invariant
                i <= MAX_BOMBS,
                self.bomb@.len() == MAX_BOMBS,
                forall|k: int|
                    0 <= k < MAX_BOMBS ==> #[trigger] self.bomb@[k] == if k < i {
                        Bomb { in_flight: false, ..old(self).bomb@[k] }
                    } else {
                        old(self).bomb@[k]
                    },
            decreases MAX_BOMBS - i,
        {
            let mut b = self.bomb[i];
            b.in_flight = false;
            self.bomb.set(i, b);
            i += 1;
        }
    }

    /// Puts the first inert bomb in flight, centred below `x` with its top
    /// at `y`; false, with nothing changed, when every bomb is in flight.
    pub fn release(&mut self, x: i32, y: i32) -> (r: bool)
        requires
            old(self).wf(),
            -BOMB_POS_LIMIT + 1 <= x <= BOMB_POS_LIMIT,
            -BOMB_POS_LIMIT <= y <= BOMB_POS_LIMIT - BOMB_SPEED,
        ensures
            final(self).wf(),
            r == first_inert(old(self).bomb@, 0) is Some,
            first_inert(old(self).bomb@, 0) matches Some(k) ==> final(self).bomb@ == old(
                self,
            ).bomb@.update(k, Bomb { x: (x - BOMB_HALF_WIDTH) as i32, y, in_flight: true }),
            first_inert(old(self).bomb@, 0) is None ==> final(self).bomb@ == old(self).bomb@,
    {
        let mut i: usize = 0;
        while i < MAX_BOMBS
            invariant
                self.wf(),
                self.bomb@ == old(self).bomb@,
                i <= MAX_BOMBS,
                first_inert(old(self).bomb@, 0) == first_inert(old(self).bomb@, i as int),
                -BOMB_POS_LIMIT + 1 <= x <= BOMB_POS_LIMIT,
                -BOMB_POS_LIMIT <= y <= BOMB_POS_LIMIT - BOMB_SPEED,
            decreases MAX_BOMBS - i,
        {
            if !self.bomb[i].in_flight {
                self.bomb.set(i, Bomb { x: x - BOMB_HALF_WIDTH, y, in_flight: true });
                return true;
            }
            i += 1;
        }
        false
    }

    /// Retires the first bomb in flight that overlaps `col_area` and reports
    /// whether there was one.
    pub fn collision(&mut self, col_area: ScreenObjectArea) -> (r: bool)
        requires
            old(self).wf(),
        ensures
            final(self).wf(),
            r == first_hit(old(self).bomb@, col_area, 0) is Some,
            first_hit(old(self).bomb@, col_area, 0) matches Some(k) ==> final(self).bomb@ == old(
                self,
            ).bomb@.update(k, Bomb { in_flight: false, ..old(self).bomb@[k] }),
            first_hit(old(self).bomb@, col_area, 0) is None ==> final(self).bomb@ == old(self).bomb@,
    {
        let mut i: usize = 0;
        while i < MAX_BOMBS
            invariant
                self.wf(),
                self.bomb@ == old(self).bomb@,
                i <= MAX_BOMBS,
                first_hit(old(self).bomb@, col_area, 0) == first_hit(old(self).bomb@, col_area, i as int),
            decreases MAX_BOMBS - i,
        {
            let b = self.bomb[i];
            if b.in_flight && col_area.collides(b.area()) {
                self.bomb.set(i, Bomb { in_flight: false, ..b });
                return true;
            }
            i += 1;
        }
        false
    }

    /// Some bomb is in flight.
    pub fn in_flight(&self) -> (r: bool)
        requires
            self.wf(),
        ensures
            r == exists|i: int| 0 <= i < MAX_BOMBS && (#[trigger] self.bomb@[i]).in_flight,
    {
        let mut i: usize = 0;
        while i < MAX_BOMBS
            invariant
                self.wf(),
                i <= MAX_BOMBS,
                forall|k: int| 0 <= k < i ==> !(#[trigger] self.bomb@[k]).in_flight,
            decreases MAX_BOMBS - i,
        {
            if self.bomb[i].in_flight {
                return true;
            }
            i += 1;
        }
        false
    }

    /// Every bomb in flight falls one step.
    pub fn update(&mut self)
        requires
            old(self).wf(),
        ensures
            final(self).wf(),
            forall|i: int|
                0 <= i < MAX_BOMBS ==> {
                    let (b, a) = (old(self).bomb@[i], #[trigger] final(self).bomb@[i]);
                    &&& a.x == b.x
                    &&& b.in_flight ==> a.y == b.y + BOMB_SPEED && a.in_flight == (a.y < SCREEN_HEIGHT)
                    &&& !b.in_flight ==> a == b
                },
    {
        let mut i: usize = 0;
        while i < MAX_BOMBS
            invariant
                i <= MAX_BOMBS,
                self.wf(),
                forall|k: int|
                    i <= k < MAX_BOMBS ==> #[trigger] self.bomb@[k] == old(self).bomb@[k],
                forall|k: int|
                    0 <= k < i ==> {
                        let (b, a) = (old(self).bomb@[k], #[trigger] self.bomb@[k]);
                        &&& a.x == b.x
                        &&& b.in_flight ==> a.y == b.y + BOMB_SPEED && a.in_flight == (a.y < SCREEN_HEIGHT)
                        &&& !b.in_flight ==> a == b
                    },
            decreases MAX_BOMBS - i,
        {
            let mut b = self.bomb[i];
            b.update();
            self.bomb.set(i, b);
            i += 1;
        }
    }
}

} // verus!
