//! The player's ship: moves along the bottom, fires, dies, and is replaced
//! from the reserve of lives after a changeover.
use crate::common::{ScreenObjectArea, SCREEN_HEIGHT, SCREEN_WIDTH};
use crate::missile::{Missile, MISSILE_HALF_WIDTH};
use vstd::prelude::*;

verus! {

pub const SHIP_WIDTH: u32 = 30;

pub const SHIP_HEIGHT: u32 = 40;

pub const SHIP_Y: i32 = 565;

pub const SHIP_SPEED: i32 = 5;

pub const LIVES: u32 = 4;

/// Frames a destroyed ship waits before a changeover, and frames of
/// protection after one.
pub const MIN_FRAMES_BEFORE_CHANGEOVER: u32 = 90;

pub const GRACE_PERIOD_FRAMES: u32 = 60;

/// Ticks of the changeover, while the reserve ship moves into place.
pub const CHANGEOVER_STEPS: u32 = 20;

/// Spacing, in pixels, of the reserve ships drawn at the bottom right.
pub const LIFE_SPACING: u32 = 25;

pub open spec fn ship_home_x() -> int {
    (SCREEN_WIDTH - SHIP_WIDTH) / 2
}

pub open spec fn ship_max_x() -> int {
    SCREEN_WIDTH - SHIP_WIDTH
}

#[derive(Clone, Copy, PartialEq, Eq, Structural, Debug)]
pub enum ShipState {
    /// In play, with the frames of protection left.
    Alive(u32),
    /// Destroyed, with the frames left before a changeover may start.
    WaitForChangeOver(u32),
    /// A reserve ship moving into place, with its progress.
    ChangeOver(u32),
}

pub struct Ship {
    pub x: i32,
    pub state: ShipState,
    pub lives: u32,
}

impl Ship {
    pub open spec fn wf(&self) -> bool {
        &&& 0 <= self.x <= ship_max_x()
        &&& self.x % SHIP_SPEED == 0
        &&& self.state matches ShipState::ChangeOver(k) ==> k <= CHANGEOVER_STEPS
    }

    pub open spec fn is_alive(&self) -> bool {
        self.state is Alive
    }

    pub open spec fn area_spec(&self) -> ScreenObjectArea {
        ScreenObjectArea {
            tl_x: self.x,
            tl_y: SHIP_Y,
            br_x: (self.x + SHIP_WIDTH) as i32,
            br_y: (SHIP_Y + SHIP_HEIGHT) as i32,
        }
    }

    pub fn new() -> (r: Ship)
        ensures
            r.wf(),
            r.x == ship_home_x(),
            r.state == ShipState::Alive(0),
            r.lives == LIVES,
    {
        Ship { x: Ship::home_x(), state: ShipState::Alive(0), lives: LIVES }
    }

    fn home_x() -> (r: i32)
        ensures
            r == ship_home_x(),
    {
        ((SCREEN_WIDTH - SHIP_WIDTH) / 2) as i32
    }

    pub fn reset(&mut self)
        ensures
            final(self).wf(),
            final(self).x == ship_home_x(),
            final(self).state == ShipState::Alive(0),
            final(self).lives == LIVES,
    {
        self.x = Ship::home_x();
        self.state = ShipState::Alive(0);
        self.lives = LIVES;
    }

    pub fn move_left(&mut self)
        requires
            old(self).wf(),
        ensures
            final(self).wf(),
            final(self).state == old(self).state,
            final(self).lives == old(self).lives,
            final(self).x == if old(self).is_alive() && old(self).x > 0 { old(self).x - SHIP_SPEED } else { old(self).x as int },
    {
        if let ShipState::Alive(_) = self.state {
            if self.x > 0 {
                self.x -= SHIP_SPEED;
            }
        }
    }

    pub fn move_right(&mut self)
        requires
            old(self).wf(),
        ensures
            final(self).wf(),
            final(self).state == old(self).state,
            final(self).lives == old(self).lives,
            final(self).x == if old(self).is_alive() && old(self).x < ship_max_x() { old(self).x + SHIP_SPEED } else { old(self).x as int },
    {
        if let ShipState::Alive(_) = self.state {
            if self.x < (SCREEN_WIDTH - SHIP_WIDTH) as i32 {
                self.x += SHIP_SPEED;
            }
        }
    }

    /// A ship in play is destroyed and sent home to wait for a changeover;
    /// the result is where it exploded.
    pub fn kill(&mut self) -> (r: Option<(i32, i32)>)
        requires
            old(self).wf(),
        ensures
            final(self).wf(),
            final(self).lives == old(self).lives,
            !old(self).is_alive() ==> *final(self) == *old(self) && r is None,
            old(self).is_alive() ==> {
                &&& r == Some((old(self).x, SHIP_Y))
                &&& final(self).state == ShipState::WaitForChangeOver(MIN_FRAMES_BEFORE_CHANGEOVER)
                &&& final(self).x == ship_home_x()
            },
    {
        if let ShipState::Alive(_) = self.state {
            let x = self.x;
            self.state = ShipState::WaitForChangeOver(MIN_FRAMES_BEFORE_CHANGEOVER);
            self.x = Ship::home_x();
            Some((x, SHIP_Y))
        } else {
            None
        }
    }

    /// One more life in reserve, the count held at its maximum.
    pub fn award_extra_life(&mut self)
        requires
            old(self).wf(),
        ensures
            final(self).wf(),
            final(self).x == old(self).x,
            final(self).state == old(self).state,
            final(self).lives == if old(self).lives < u32::MAX { old(self).lives + 1 } else { old(self).lives as int },
    {
        if self.lives < u32::MAX {
            self.lives += 1;
        }
    }

    pub fn alive(&self) -> (r: bool)
        ensures
            r == self.is_alive(),
    {
        if let ShipState::Alive(_) = self.state {
            true
        } else {
            false
        }
    }

    /// False once the last ship is destroyed with no reserve left.
    pub fn life_left(&self) -> (r: bool)
        ensures
            r == !(self.lives == 0 && self.state is WaitForChangeOver),
    {
        if self.lives == 0 {
            if let ShipState::WaitForChangeOver(_) = self.state {
                return false;
            }
        }
        true
    }

    pub fn area(&self) -> (r: ScreenObjectArea)
        requires
            self.wf(),
        ensures
            r == self.area_spec(),
    {
        ScreenObjectArea::new(self.x, SHIP_Y, SHIP_WIDTH, SHIP_HEIGHT)
    }

    /// Counters run down; a finished changeover puts the new ship in play
    /// with a grace period.
    pub fn update(&mut self)
        requires
            old(self).wf(),
        ensures
            final(self).wf(),
            final(self).x == old(self).x,
            final(self).lives == old(self).lives,
            final(self).state == match old(self).state {
                ShipState::WaitForChangeOver(n) => ShipState::WaitForChangeOver(if n > 0 { (n - 1) as u32 } else { 0 }),
                ShipState::ChangeOver(n) => if n < CHANGEOVER_STEPS {
                    ShipState::ChangeOver((n + 1) as u32)
                } else {
                    ShipState::Alive(GRACE_PERIOD_FRAMES)
                },
                ShipState::Alive(n) => ShipState::Alive(if n > 0 { (n - 1) as u32 } else { 0 }),
            },
    {
        match self.state {
            ShipState::WaitForChangeOver(n) => {
                if n > 0 {
                    self.state = ShipState::WaitForChangeOver(n - 1);
                }
            },
            ShipState::ChangeOver(n) => {
                if n < CHANGEOVER_STEPS {
                    self.state = ShipState::ChangeOver(n + 1);
                } else {
                    self.state = ShipState::Alive(GRACE_PERIOD_FRAMES);
                }
            },
            ShipState::Alive(n) => {
                if n > 0 {
                    self.state = ShipState::Alive(n - 1);
                }
            },
        }
    }

    /// A ship in play fires from its nose; reports whether a missile left.
    pub fn launch_missile(&self, missile: &mut Missile) -> (fired: bool)
        requires
            self.wf(),
            old(missile).wf(),
        ensures
            final(missile).wf(),
            !self.is_alive() ==> !fired && *final(missile) == *old(missile),
            self.is_alive() ==> fired == !old(missile).in_flight,
            fired ==> final(missile).in_flight && final(missile).x == self.x + SHIP_WIDTH / 2 - MISSILE_HALF_WIDTH,
    {
        if let ShipState::Alive(_) = self.state {
            missile.launch(self.x + (SHIP_WIDTH / 2) as i32, SHIP_Y)
        } else {
            false
        }
    }

    pub fn waiting_for_changeover(&self) -> (r: bool)
        ensures
            r == self.state is WaitForChangeOver,
    {
        match self.state {
            ShipState::WaitForChangeOver(_) => true,
            _ => false,
        }
    }

    pub fn enough_delay_for_changeover(&self) -> (r: bool)
        ensures
            r == (self.state == ShipState::WaitForChangeOver(0)),
    {
        match self.state {
            ShipState::WaitForChangeOver(n) => n == 0,
            _ => false,
        }
    }

    pub fn in_changeover(&self) -> (r: bool)
        ensures
            r == (self.state is WaitForChangeOver || self.state is ChangeOver),
    {
        match self.state {
            ShipState::WaitForChangeOver(_) => true,
            ShipState::ChangeOver(_) => true,
            _ => false,
        }
    }

    /// Brings in a ship from the reserve, if one is left.
    pub fn proceed_with_changeover(&mut self)
        requires
            old(self).wf(),
        ensures
            final(self).wf(),
            final(self).x == old(self).x,
            old(self).lives > 0 ==> final(self).state == ShipState::ChangeOver(0) && final(self).lives == old(self).lives - 1,
            old(self).lives == 0 ==> *final(self) == *old(self),
    {
        if self.lives > 0 {
            self.state = ShipState::ChangeOver(0);
            self.lives -= 1;
        }
    }

    /// In play within the grace period after a changeover.
    pub fn protected(&self) -> (r: bool)
        ensures
            r == (self.state matches ShipState::Alive(n) && n > 0),
    {
        match self.state {
            ShipState::Alive(n) => n > 0,
            _ => false,
        }
    }

    /// Horizontal position, in pixels, of reserve ship `life`.
    pub fn life_x(life: u32) -> (r: i32)
        requires
            life <= 1000,
        ensures
            r == lives_x() - life * LIFE_SPACING,
    {
        (SCREEN_WIDTH - 2 - SHIP_WIDTH / 2) as i32 - (life * LIFE_SPACING) as i32
    }
}

pub open spec fn lives_x() -> int {
    SCREEN_WIDTH - 2 - SHIP_WIDTH / 2
}

/// Vertical position, in pixels, of the reserve ships.
pub open spec fn lives_y() -> int {
    SCREEN_HEIGHT - 2 - SHIP_HEIGHT / 2
}

} // verus!
