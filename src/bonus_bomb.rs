//! The bonus bomb that the mother ship drops now and then: shooting it
//! knocks pieces back out of the pattern.
use crate::common::{ScreenObjectArea, SCREEN_HEIGHT};
use crate::letter_bricks::{filled_desc, LetterBricks, BRICKS_QTY};
use crate::random::gen_range_u32;
use rand::rngs::StdRng;
use vstd::prelude::*;

verus! {

pub const START_Y: i32 = 120;

pub const BOMB_WIDTH: u32 = 50;

pub const BOMB_HEIGHT: u32 = 22;

pub const BOMB_SPEED: i32 = 2;

pub const BOMB_PERIOD: u32 = 10;

/// Distance between two chimes of a falling bonus bomb, in pixels.
pub const CHIME_SPACING: i32 = 120;

pub const SCORE_MULTIPLIER: u32 = 20;

/// Horizontal launch positions are kept within this distance of the origin.
pub const LAUNCH_X_LIMIT: i32 = 100_000;

#[derive(Clone, Copy, PartialEq, Eq, Structural, Debug)]
pub enum BombType {
    Bonus10,
    Bonus30,
    Bonus50,
}

impl BombType {
    pub open spec fn index_spec(self) -> usize {
        match self {
            BombType::Bonus10 => 0,
            BombType::Bonus30 => 1,
            BombType::Bonus50 => 2,
        }
    }

    /// Number of pieces the bomb knocks out of the pattern.
    pub open spec fn value_spec(self) -> usize {
        match self {
            BombType::Bonus10 => 10,
            BombType::Bonus30 => 30,
            BombType::Bonus50 => 50,
        }
    }

    pub fn index(&self) -> (r: usize)
        ensures
            r == self.index_spec(),
    {
        match self {
            BombType::Bonus10 => 0,
            BombType::Bonus30 => 1,
            BombType::Bonus50 => 2,
        }
    }

    pub fn value(&self) -> (r: usize)
        ensures
            r == self.value_spec(),
    {
        match self {
            BombType::Bonus10 => 10,
            BombType::Bonus30 => 30,
            BombType::Bonus50 => 50,
        }
    }
}

#[derive(Clone, Copy, PartialEq, Eq, Structural, Debug)]
pub enum BonusBombState {
    Dormant,
    InFlight,
}

pub struct BonusBomb {
    pub x: i32,
    pub y: i32,
    pub bomb_state: BonusBombState,
    pub bomb_type: BombType,
    pub sound_on: bool,
}

impl BonusBomb {
    pub open spec fn wf(&self) -> bool {
        &&& -LAUNCH_X_LIMIT <= self.x <= LAUNCH_X_LIMIT
        &&& 0 <= self.y <= SCREEN_HEIGHT + BOMB_SPEED
        &&& self.bomb_state == BonusBombState::InFlight ==> self.y <= SCREEN_HEIGHT
    }

    /// The part of the bomb that a missile can hit: its middle.
    pub open spec fn area_spec(&self) -> ScreenObjectArea {
        ScreenObjectArea {
            tl_x: (self.x + 10) as i32,
            tl_y: self.y,
            br_x: (self.x + BOMB_WIDTH - 10) as i32,
            br_y: (self.y + BOMB_HEIGHT) as i32,
        }
    }

    pub fn new() -> (r: BonusBomb)
        ensures
            r.wf(),
            r.bomb_state == BonusBombState::Dormant,
            !r.sound_on,
    {
        BonusBomb { x: 0, y: 0, bomb_state: BonusBombState::Dormant, bomb_type: BombType::Bonus10, sound_on: false }
    }

    fn area(&self) -> (r: ScreenObjectArea)
        requires
            self.wf(),
        ensures
            r == self.area_spec(),
    {
        ScreenObjectArea::new(self.x + 10, self.y, BOMB_WIDTH - 20, BOMB_HEIGHT)
    }

    pub fn in_flight(&self) -> (r: bool)
        ensures
            r == (self.bomb_state == BonusBombState::InFlight),
    {
        match self.bomb_state {
            BonusBombState::InFlight => true,
            _ => false,
        }
    }

    pub fn reset(&mut self)
        requires
            old(self).wf(),
        ensures
            final(self).wf(),
            *final(self) == (BonusBomb { bomb_state: BonusBombState::Dormant, ..*old(self) }),
    {
        self.bomb_state = BonusBombState::Dormant;
    }

    /// Sets a bomb of random value falling from below the ship's centre `x`.
    pub fn launch(&mut self, x: i32, rng: &mut StdRng)
        requires
            -LAUNCH_X_LIMIT + BOMB_WIDTH / 2 <= x <= LAUNCH_X_LIMIT,
        ensures
            final(self).wf(),
            final(self).x == x - BOMB_WIDTH / 2,
            final(self).y == START_Y,
            final(self).bomb_state == BonusBombState::InFlight,
            final(self).sound_on == old(self).sound_on,
    {
        self.x = x - (BOMB_WIDTH / 2) as i32;
        self.y = START_Y;
        self.bomb_state = BonusBombState::InFlight;
        let pick = gen_range_u32(rng, 0, 3);
        self.bomb_type = if pick == 0 {
            BombType::Bonus10
        } else if pick == 1 {
            BombType::Bonus30
        } else {
            BombType::Bonus50
        };
    }

    pub fn collision(&self, col_area: ScreenObjectArea) -> (r: bool)
        requires
            self.wf(),
        ensures
            r == (self.bomb_state == BonusBombState::InFlight && col_area.overlaps(self.area_spec())),
    {
        self.in_flight() && col_area.collides(self.area())
    }

    /// The bomb is hit: it goes dormant and queues as many pieces of the
    /// pattern for removal as it is worth. Returns the centre of the bomb and
    /// the index of its kind, for the hit effect.
    pub fn achieve_bonus(&mut self, letter_bricks: &mut LetterBricks) -> (r: (i32, i32, usize))
        requires
            old(self).wf(),
            old(letter_bricks).wf(),
        ensures
            final(self).wf(),
            final(self).bomb_state == BonusBombState::Dormant,
            final(letter_bricks).wf(),
            final(letter_bricks)@ == old(letter_bricks)@,
            r.0 == old(self).x + BOMB_WIDTH / 2,
            r.1 == old(self).y + BOMB_HEIGHT / 2,
            r.2 == old(self).bomb_type.index_spec(),
            old(letter_bricks).to_remove@.len() + BRICKS_QTY <= usize::MAX ==> ({
                let all = filled_desc(old(letter_bricks)@.filled, 0, BRICKS_QTY as int);
                let qty = old(self).bomb_type.value_spec();
                let start = old(letter_bricks).to_remove@;
                let need = if qty > start.len() { qty - start.len() } else { 1 };
                let k = if all.len() < need { all.len() as int } else { need };
                final(letter_bricks).to_remove@ == (start + all.take(k)).reverse()
            }),
    {
        self.bomb_state = BonusBombState::Dormant;
        if letter_bricks.to_remove.len() <= usize::MAX - BRICKS_QTY {
            letter_bricks.initiate_removal(self.bomb_type.value());
        }
        let x = self.x + (BOMB_WIDTH / 2) as i32;
        let y = self.y + (BOMB_HEIGHT / 2) as i32;
        (x, y, self.bomb_type.index())
    }

    pub fn score(&self) -> (r: u32)
        ensures
            r == self.bomb_type.value_spec() * SCORE_MULTIPLIER,
    {
        self.bomb_type.value() as u32 * SCORE_MULTIPLIER
    }

    pub fn turn_sound_on(&mut self)
        ensures
            *final(self) == (BonusBomb { sound_on: true, ..*old(self) }),
    {
        self.sound_on = true;
    }

    pub fn turn_sound_off(&mut self)
        ensures
            *final(self) == (BonusBomb { sound_on: false, ..*old(self) }),
    {
        self.sound_on = false;
    }

    /// One tick of fall. The result asks for the falling chime, which sounds
    /// every `CHIME_SPACING` pixels while the sound is on.
    pub fn update(&mut self) -> (chime: bool)
        requires
            old(self).wf(),
        ensures
            final(self).wf(),
            final(self).x == old(self).x,
            final(self).bomb_type == old(self).bomb_type,
            final(self).sound_on == old(self).sound_on,
            old(self).bomb_state == BonusBombState::Dormant ==> *final(self) == *old(self) && !chime,
            old(self).bomb_state == BonusBombState::InFlight ==> {
                &&& chime == (old(self).sound_on && (old(self).y - START_Y) % (CHIME_SPACING as int) == 0)
                &&& final(self).y == old(self).y + BOMB_SPEED
                &&& final(self).bomb_state == if final(self).y > SCREEN_HEIGHT {
                    BonusBombState::Dormant
                } else {
                    BonusBombState::InFlight
                }
            },
    {
        match self.bomb_state {
            BonusBombState::InFlight => {
                let chime = self.sound_on && chime_due(self.y);
                self.y += BOMB_SPEED;
                if self.y > SCREEN_HEIGHT as i32 {
                    self.bomb_state = BonusBombState::Dormant;
                }
                chime
            },
            _ => false,
        }
    }
}

/// The bomb has fallen a whole number of chime spacings from its start.
fn chime_due(y: i32) -> (r: bool)
    requires
        0 <= y <= SCREEN_HEIGHT + BOMB_SPEED,
    ensures
        r == ((y - START_Y) % (CHIME_SPACING as int) == 0),
{
    let shifted = (y + (CHIME_SPACING - START_Y)) as u32;
    shifted % (CHIME_SPACING as u32) == 0
}

} // verus!
