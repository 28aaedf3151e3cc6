//! The mother ship: it patrols the top of the screen, launches spiders and
//! now and then drops a bonus bomb.
use crate::bonus_bomb::BonusBomb;
use crate::common::SCREEN_WIDTH;
use crate::random::gen_range_u32;
use rand::rngs::StdRng;
use vstd::prelude::*;

verus! {

pub const MOTHER_Y: i32 = 100;

pub const MOTHER_WIDTH: u32 = 100;

pub const MOTHER_HEIGHT: u32 = 20;

pub const MOTHER_PERIOD: u32 = 32;

pub const MOTHER_SPEED: i32 = 2;

/// Room the spider launch arc needs between the ship and the screen edge.
pub const LAUNCH_CLEARANCE: i32 = 50;

/// Frames before the first bonus bomb: a fixed part and a random part.
pub const BONUS_BOMB_DELAY: u32 = 1200;

/// A bonus bomb due while raiding is held back is put off by a fixed part
/// and a random part.
pub const BONUS_BOMB_POSTPONE: u32 = 100;

pub const BONUS_BOMB_POSTPONE_RANDOM: u32 = 200;

pub open spec fn right_limit() -> int {
    SCREEN_WIDTH - MOTHER_WIDTH
}

pub open spec fn home_x() -> int {
    (SCREEN_WIDTH - MOTHER_WIDTH) / 2
}

pub struct Mother {
    pub x: i32,
    pub vel: i32,
    pub bonus_bomb_frame: u32,
}

impl Mother {
    pub open spec fn wf(&self) -> bool {
        &&& 0 <= self.x <= right_limit()
        &&& self.vel == MOTHER_SPEED || self.vel == -MOTHER_SPEED
        &&& self.x > right_limit() - MOTHER_SPEED ==> self.vel < 0
        &&& self.x < MOTHER_SPEED ==> self.vel > 0
    }

    /// Heading of a spider launched now, if one may be: against the ship's
    /// direction of travel, and only with room for the arc before the edge.
    pub open spec fn launch_dir_spec(&self) -> Option<i32> {
        if (self.vel < 0 && self.x < right_limit() - LAUNCH_CLEARANCE) || (self.vel > 0 && self.x
            > LAUNCH_CLEARANCE) {
            Some(if self.vel > 0 { -1i32 } else { 1i32 })
        } else {
            None
        }
    }

    pub fn new() -> (r: Mother)
        ensures
            r.wf(),
            r.x == home_x(),
            r.vel == MOTHER_SPEED,
    {
        Mother { x: ((SCREEN_WIDTH - MOTHER_WIDTH) / 2) as i32, vel: MOTHER_SPEED, bonus_bomb_frame: 0 }
    }

    /// Back to the centre, heading right, with a new bonus bomb time.
    pub fn full_reset(&mut self, rng: &mut StdRng)
        ensures
            final(self).wf(),
            final(self).x == home_x(),
            final(self).vel == MOTHER_SPEED,
            BONUS_BOMB_DELAY <= final(self).bonus_bomb_frame < 2 * BONUS_BOMB_DELAY,
    {
        self.reset(rng);
        self.x = ((SCREEN_WIDTH - MOTHER_WIDTH) / 2) as i32;
        self.vel = MOTHER_SPEED;
    }

    /// Picks the frame of this screen's bonus bomb.
    pub fn reset(&mut self, rng: &mut StdRng)
        ensures
            final(self).x == old(self).x,
            final(self).vel == old(self).vel,
            BONUS_BOMB_DELAY <= final(self).bonus_bomb_frame < 2 * BONUS_BOMB_DELAY,
    {
        self.bonus_bomb_frame = BONUS_BOMB_DELAY + gen_range_u32(rng, 0, BONUS_BOMB_DELAY);
    }

    /// One tick: the ship moves and turns at the edges; on the bonus bomb's
    /// frame the bomb is launched below the ship's centre, or put off while
    /// raiding is held back.
    pub fn update(&mut self, bonus_bomb: &mut BonusBomb, restrict: bool, frame_count: u32, rng: &mut StdRng)
        requires
            old(self).wf(),
        ensures
            final(self).wf(),
            final(self).x == old(self).x + old(self).vel,
            final(self).vel == if final(self).x > right_limit() - MOTHER_SPEED || final(self).x
                < MOTHER_SPEED {
                -old(self).vel
            } else {
                old(self).vel as int
            },
            frame_count != old(self).bonus_bomb_frame ==> final(self).bonus_bomb_frame == old(
                self,
            ).bonus_bomb_frame && *final(bonus_bomb) == *old(bonus_bomb),
            frame_count == old(self).bonus_bomb_frame && restrict ==> *final(bonus_bomb) == *old(bonus_bomb),
            frame_count == old(self).bonus_bomb_frame && restrict && old(self).bonus_bomb_frame
                <= u32::MAX - BONUS_BOMB_POSTPONE - BONUS_BOMB_POSTPONE_RANDOM ==> old(self).bonus_bomb_frame
                + BONUS_BOMB_POSTPONE <= final(self).bonus_bomb_frame < old(self).bonus_bomb_frame + BONUS_BOMB_POSTPONE
                + BONUS_BOMB_POSTPONE_RANDOM,
            frame_count == old(self).bonus_bomb_frame && !restrict ==> {
                &&& final(self).bonus_bomb_frame == old(self).bonus_bomb_frame
                &&& final(bonus_bomb).wf()
                &&& final(bonus_bomb).x == final(self).x + MOTHER_WIDTH / 2 - crate::bonus_bomb::BOMB_WIDTH / 2
                &&& final(bonus_bomb).bomb_state == crate::bonus_bomb::BonusBombState::InFlight
            },
    {
        self.x += self.vel;
        if self.x > (SCREEN_WIDTH - MOTHER_WIDTH) as i32 - MOTHER_SPEED || self.x < MOTHER_SPEED {
            self.vel = -self.vel;
        }
        if frame_count == self.bonus_bomb_frame {
            if restrict {
                if self.bonus_bomb_frame <= u32::MAX - BONUS_BOMB_POSTPONE - BONUS_BOMB_POSTPONE_RANDOM {
                    self.bonus_bomb_frame += BONUS_BOMB_POSTPONE + gen_range_u32(
                        rng,
                        0,
                        BONUS_BOMB_POSTPONE_RANDOM,
                    );
                }
            } else {
                bonus_bomb.launch(self.x + (MOTHER_WIDTH / 2) as i32, rng);
            }
        }
    }

    pub fn location(&self) -> (r: (i32, i32))
        ensures
            r == (self.x, MOTHER_Y),
    {
        (self.x, MOTHER_Y)
    }

    pub fn launch_dir(&self) -> (r: Option<i32>)
        ensures
            r == self.launch_dir_spec(),
    {
        if (self.vel < 0 && self.x < (SCREEN_WIDTH - MOTHER_WIDTH) as i32 - LAUNCH_CLEARANCE) || (
        self.vel > 0 && self.x > LAUNCH_CLEARANCE) {
            Some(if self.vel > 0 { -1 } else { 1 })
        } else {
            None
        }
    }
}

} // verus!
