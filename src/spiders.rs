//! The spiders: each one a state machine that launches from the mother
//! ship, steers towards a claimed piece of the source grid, carries it to a
//! claimed cell of the pattern, and drops bombs on the way; and the roster
//! that schedules their launch in waves.
//!
//! Spider positions and speeds are kept in sub-pixels, `SUBPIXELS` to the
//! pixel, so that every speed of the table is a whole number.
use crate::base_bricks::BaseBricks;
use crate::bombs::Bombs;
use crate::common::{ScreenObjectArea, TargetBrick, SCREEN_WIDTH};
use crate::grid::GridView;
use crate::letter_bricks::LetterBricks;
use crate::mother::Mother;
use crate::random::{gen_bool, gen_range_u32};
use rand::rngs::StdRng;
use vstd::arithmetic::div_mod::{lemma_fundamental_div_mod, lemma_mod_multiples_basic};
use vstd::prelude::*;

verus! {

pub const NUMBER_OF_SPIDERS: usize = 45;

pub const INIT_IN_FLIGHT: u32 = 7;

pub const MAX_IN_FLIGHT: u32 = 18;

/// Wave cap of a fresh roster, before the first `reset`.
pub const DEMO_IN_FLIGHT: u32 = 10;

pub const SUBPIXELS: i32 = 100;

/// Size of a spider, in pixels.
pub const SPIDER_WIDTH: i32 = 30;

pub const SPIDER_HEIGHT: i32 = 40;

pub const SPIDER_PERIOD: u32 = 20;

/// Ticks of the launch arc, of the pickup and of the deposit.
pub const TURN_STEPS: u32 = 20;

pub const FRAMES_BETWEEN_LAUNCHES: u32 = 30;

pub const FIRST_LAUNCH: u32 = 100;

/// The flight band, in pixels.
pub const FLIGHT_SPIDER_Y_MAX: i32 = 480;

pub const FLIGHT_SPIDER_Y_MIN: i32 = 200;

/// Speeds, in sub-pixels per tick.
pub const SPEED_SLOW: i32 = 200;

pub const SPEED_MEDIUM: i32 = 300;

pub const SPEED_FAST: i32 = 400;

pub const DESCEND_SPEED: i32 = 100;

/// Heights, in pixels, where the climb after a pickup ends and below which
/// bombs are dropped.
pub const SPIDER_ASCEND_Y: i32 = 510;

pub const BOMB_RELEASE_MAX_Y: i32 = 410;

/// Offsets, in pixels, from a cell's position to where a spider's top-left
/// corner must be to act on it.
pub const TARGET_OFFSET_X: i32 = 9;

pub const GRAB_OFFSET_Y: i32 = 8;

/// Spider positions are kept within this distance of the origin, in sub-pixels.
pub const POS_LIMIT: i32 = 100_000_000;

/// Claims a spider holds lie within this distance of the origin, in pixels.
pub const TARGET_LIMIT: i32 = 10_000;

/// Ticks between changes of heading while wandering, and between bombs.
pub const WANDER_MIN: u32 = 100;

pub const WANDER_MAX: u32 = 200;

pub const BOMB_WAIT_MIN: u32 = 50;

pub const BOMB_WAIT_MAX: u32 = 200;

/// Rest between waves.
pub const WAVE_REST_MIN: u32 = 200;

pub const WAVE_REST_MAX: u32 = 400;

/// Nestled spiders sit in rows on the mother ship, positions in pixels.
pub const NESTLE_PER_ROW: usize = 15;

pub const SLOW_SPIDERS: usize = 11;

/// Nestled spiders sit within this distance of the mother ship, in sub-pixels.
pub const NESTLE_LIMIT: i32 = 100_000;

pub const FIRST_FAST_SPIDER: usize = 36;

#[derive(Clone, Copy, PartialEq, Eq, Structural, Debug)]
pub enum SpiderType {
    Slow,
    Medium,
    Fast,
}

/// What a spider is doing. Progress counters run from 0 to `TURN_STEPS`;
/// velocities are in sub-pixels per tick; a direction is -1 or 1.
#[derive(Clone, Copy, PartialEq, Eq, Structural, Debug)]
pub enum SpiderState {
    Nestle,
    Swoop(u32, i32),
    Seek(i32, i32, Option<TargetBrick>),
    Descend(TargetBrick),
    Grab(u32, i32),
    Ascend,
    Carry(i32, i32, Option<TargetBrick>),
    Release(u32, i32),
    Dead,
}

#[derive(Clone, Copy, PartialEq, Eq, Structural, Debug)]
pub enum DirRequired {
    Up,
    Down,
    Any,
}

/// What a spider did this tick that others may want to hear of.
#[derive(Clone, Copy, PartialEq, Eq, Structural, Debug)]
pub enum SpiderEvent {
    Quiet,
    Grabbed,
    Deposited,
}

#[derive(Clone, Copy, PartialEq, Eq, Structural, Debug)]
pub struct Spider {
    pub spider_type: SpiderType,
    pub state: SpiderState,
    pub x: i32,
    pub y: i32,
    pub next_dir_change: u32,
    pub next_bomb_release: u32,
    pub anim_offset: u32,
}

pub open spec fn abs(v: int) -> int {
    if v < 0 {
        -v
    } else {
        v
    }
}

/// Entry `i` of the speed table of a kind: horizontal and vertical speed.
pub open spec fn speed_of(kind: SpiderType, i: int) -> (int, int) {
    match kind {
        SpiderType::Slow => if i == 0 {
            (200, 200)
        } else if i == 1 {
            (100, 200)
        } else {
            (0, 200)
        },
        SpiderType::Medium => if i == 0 {
            (300, 150)
        } else if i == 1 {
            (300, 300)
        } else {
            (150, 300)
        },
        SpiderType::Fast => if i == 0 {
            (400, 0)
        } else if i == 1 {
            (400, 200)
        } else {
            (400, 400)
        },
    }
}

/// Candidate `j` of the trajectory search: the table entries in order, each
/// tried with signs (+,+), (-,+), (-,-), (+,-).
pub open spec fn trajectory_candidate(kind: SpiderType, j: int) -> (int, int) {
    let (sx, sy) = speed_of(kind, j / 4);
    let v = j % 4;
    if v == 0 {
        (sx, sy)
    } else if v == 1 {
        (-sx, sy)
    } else if v == 2 {
        (-sx, -sy)
    } else {
        (sx, -sy)
    }
}

/// Flying from `(x, y)` with velocity `(xv, yv)` reaches `(xt, yt)`: the
/// target lies in the direction of vertical travel, a descent is no
/// shallower than diagonal, and where the path meets the target's height it
/// misses by less than one vertical step.
pub open spec fn reaches(x: int, y: int, xt: int, yt: int, xv: int, yv: int) -> bool {
    &&& xv != 0
    &&& yv != 0
    &&& (yv > 0 && yt >= y) || (yv < 0 && yt < y)
    &&& yv < 0 || abs(xv) <= abs(yv)
    &&& abs((xt - x) * yv + (y - yt) * xv) < abs(yv) * abs(xv)
}

/// The first candidate from `j` on whose path reaches the target.
pub open spec fn first_reaching(kind: SpiderType, x: int, y: int, xt: int, yt: int, j: int) -> Option<(int, int)>
    decreases 12 - j,
{
    if j < 0 || j >= 12 {
        None
    } else {
        let (xv, yv) = trajectory_candidate(kind, j);
        if reaches(x, y, xt, yt, xv, yv) {
            Some((xv, yv))
        } else {
            first_reaching(kind, x, y, xt, yt, j + 1)
        }
    }
}

/// Within one step of the target on both axes.
pub open spec fn near(x: int, y: int, xt: int, yt: int, xv: int, yv: int) -> bool {
    abs(x - xt) < abs(xv) && abs(y - yt) < abs(yv)
}

pub open spec fn clamp_pos(v: int) -> int {
    if v > POS_LIMIT {
        POS_LIMIT as int
    } else if v < -POS_LIMIT {
        -POS_LIMIT
    } else {
        v
    }
}

/// Right and bottom edges of the flight band for a spider's top-left
/// corner, in sub-pixels.
pub open spec fn band_x_max() -> int {
    (SCREEN_WIDTH - SPIDER_WIDTH) * SUBPIXELS
}

pub open spec fn band_y_min() -> int {
    FLIGHT_SPIDER_Y_MIN * SUBPIXELS
}

pub open spec fn band_y_max() -> int {
    (FLIGHT_SPIDER_Y_MAX - SPIDER_HEIGHT) * SUBPIXELS
}

/// The spider is inside the flight band.
pub open spec fn in_band(x: int, y: int) -> bool {
    0 <= x <= band_x_max() && band_y_min() <= y <= band_y_max()
}

/// A velocity component turned round where keeping it would leave `lo..=hi`.
pub open spec fn bounce(p: int, v: int, lo: int, hi: int) -> int {
    if (p + v > hi && v > 0) || (p + v < lo && v < 0) {
        -v
    } else {
        v
    }
}

/// Pixel value of a sub-pixel coordinate, rounded towards zero.
pub open spec fn trunc_px(v: int) -> int {
    if v >= 0 {
        v / SUBPIXELS as int
    } else {
        -((-v) / SUBPIXELS as int)
    }
}

pub open spec fn target_ok(t: TargetBrick) -> bool {
    -TARGET_LIMIT <= t.x <= TARGET_LIMIT && -TARGET_LIMIT <= t.y <= TARGET_LIMIT
}

pub open spec fn velocity_ok(xv: int, yv: int) -> bool {
    abs(xv) <= SPEED_FAST && abs(yv) <= SPEED_FAST
}

/// The claim on the source grid that a spider in this state holds.
pub open spec fn base_claim(s: SpiderState) -> Option<usize> {
    match s {
        SpiderState::Seek(_, _, Some(t)) => Some(t.brick_id),
        SpiderState::Descend(t) => Some(t.brick_id),
        _ => None,
    }
}

/// The claim on the pattern that a spider in this state holds.
pub open spec fn letter_claim(s: SpiderState) -> Option<usize> {
    match s {
        SpiderState::Carry(_, _, Some(t)) => Some(t.brick_id),
        _ => None,
    }
}

/// How a spider's tick may change its claim on the source grid and the
/// grid with it: nothing changes; or it adopts a claim on a cell that was
/// free; or it takes the piece of the cell it claimed.
pub open spec fn base_claim_step(before: Option<usize>, after: Option<usize>, g: GridView, g2: GridView) -> bool {
    ||| after == before && g2 == g
    ||| before is None && after is Some && after.unwrap() < g.claimed.len() && !g.claimed[after.unwrap() as int]
        && g2 == g.claim(after.unwrap() as int)
    ||| before is Some && after is None && g2 == g.take(before.unwrap() as int)
}

/// The same for the pattern, where a claim is settled by filling the cell.
pub open spec fn letter_claim_step(before: Option<usize>, after: Option<usize>, g: GridView, g2: GridView) -> bool {
    ||| after == before && g2 == g
    ||| before is None && after is Some && after.unwrap() < g.claimed.len() && !g.claimed[after.unwrap() as int]
        && g2 == g.claim(after.unwrap() as int)
    ||| before is Some && after is None && g2 == g.fill(before.unwrap() as int)
}

/// Vertical speed of a table entry where one is needed: a level entry
/// takes the fast speed.
pub open spec fn non_level(v: int) -> int {
    if v == 0 {
        SPEED_FAST as int
    } else {
        v
    }
}

/// Where a spider in this state moves by the random walk alone.
pub open spec fn wanders(s: SpiderState, restrict: bool) -> bool {
    match s {
        SpiderState::Seek(_, _, None) => true,
        SpiderState::Carry(_, _, None) => true,
        SpiderState::Seek(_, _, Some(_)) => restrict,
        SpiderState::Carry(_, _, Some(_)) => restrict,
        _ => false,
    }
}

/// Where a spider's top-left corner must be to descend onto a claimed
/// piece of the source grid, and to deposit into a claimed cell of the
/// pattern, in sub-pixels.
pub open spec fn seek_point(t: TargetBrick) -> (int, int) {
    ((t.x - TARGET_OFFSET_X) * SUBPIXELS, (t.y - SPIDER_HEIGHT) * SUBPIXELS)
}

pub open spec fn carry_point(t: TargetBrick) -> (int, int) {
    ((t.x - TARGET_OFFSET_X) * SUBPIXELS, t.y * SUBPIXELS)
}

pub open spec fn as_int_pair(o: Option<(i32, i32)>) -> Option<(int, int)> {
    match o {
        Some(v) => Some((v.0 as int, v.1 as int)),
        None => None,
    }
}

/// Speed of the climb after a pickup: the kind's own speed.
pub open spec fn climb_speed(kind: SpiderType) -> int {
    match kind {
        SpiderType::Slow => SPEED_SLOW as int,
        SpiderType::Medium => SPEED_MEDIUM as int,
        SpiderType::Fast => SPEED_FAST as int,
    }
}

fn climb_speed_of(kind: SpiderType) -> (r: i32)
    ensures
        r == climb_speed(kind),
{
    match kind {
        SpiderType::Slow => SPEED_SLOW,
        SpiderType::Medium => SPEED_MEDIUM,
        SpiderType::Fast => SPEED_FAST,
    }
}

/// Horizontal and vertical step of the launch arc at progress `k`, for a
/// rightward arc, in sub-pixels: a half circle of radius five pixels.
fn swoop_step(k: u32) -> (r: (i32, i32))
    requires
        k < TURN_STEPS,
    ensures
        abs(r.0 as int) <= 500,
        abs(r.1 as int) <= 500,
{
    let dx: [i32; 20] = [0, 78, 155, 227, 294, 354, 405, 446, 476, 494, 500, 494, 476, 446, 405, 354, 294, 227, 155, 78];
    let dy: [i32; 20] = [-500, -494, -476, -446, -405, -354, -294, -227, -155, -78, 0, 78, 155, 227, 294, 354, 405, 446, 476, 494];
    let i = k as usize;
    (dx[i], dy[i])
}

fn speed_entry(kind: SpiderType, i: usize) -> (r: (i32, i32))
    requires
        i < 3,
    ensures
        (r.0 as int, r.1 as int) == speed_of(kind, i as int),
{
    match kind {
        SpiderType::Slow => if i == 0 {
            (SPEED_SLOW, SPEED_SLOW)
        } else if i == 1 {
            (SPEED_SLOW / 2, SPEED_SLOW)
        } else {
            (0, SPEED_SLOW)
        },
        SpiderType::Medium => if i == 0 {
            (SPEED_MEDIUM, SPEED_MEDIUM / 2)
        } else if i == 1 {
            (SPEED_MEDIUM, SPEED_MEDIUM)
        } else {
            (SPEED_MEDIUM / 2, SPEED_MEDIUM)
        },
        SpiderType::Fast => if i == 0 {
            (SPEED_FAST, 0)
        } else if i == 1 {
            (SPEED_FAST, SPEED_FAST / 2)
        } else {
            (SPEED_FAST, SPEED_FAST)
        },
    }
}

/// `p + v`, held within the position limit.
fn advance(p: i32, v: i32) -> (r: i32)
    requires
        -POS_LIMIT <= p <= POS_LIMIT,
        abs(v as int) <= 10_000,
    ensures
        r == clamp_pos(p + v),
{
    let s = p + v;
    if s > POS_LIMIT {
        POS_LIMIT
    } else if s < -POS_LIMIT {
        -POS_LIMIT
    } else {
        s
    }
}

/// Pixel value of a sub-pixel coordinate, rounded towards zero.
fn to_pixels(v: i32) -> (r: i32)
    requires
        -2 * POS_LIMIT <= v <= 2 * POS_LIMIT,
    ensures
        r == trunc_px(v as int),
{
    if v >= 0 {
        (v as u32 / SUBPIXELS as u32) as i32
    } else {
        -(((-v) as u32 / SUBPIXELS as u32) as i32)
    }
}

/// Sub-pixel coordinate rounded down to a whole pixel.
fn floor_to_pixel(v: i32) -> (r: i32)
    requires
        -2 * POS_LIMIT <= v <= 2 * POS_LIMIT,
    ensures
        (r as int) % (SUBPIXELS as int) == 0,
        r <= v < r + SUBPIXELS,
{
    if v >= 0 {
        proof {
            let n = v as int;
            lemma_fundamental_div_mod(n, 100);
            lemma_mod_multiples_basic(n / 100, 100);
            assert(n - n % 100 == (n / 100) * 100);
        }
        v - (v as u32 % SUBPIXELS as u32) as i32
    } else {
        let m = ((-v) as u32 % SUBPIXELS as u32) as i32;
        proof {
            let n = -(v as int);
            lemma_fundamental_div_mod(n, 100);
            lemma_mod_multiples_basic(-(n / 100), 100);
            lemma_mod_multiples_basic(-(n / 100) - 1, 100);
            assert(v == (-(n / 100)) * 100 - n % 100);
            assert(v - (100 - n % 100) == (-(n / 100) - 1) * 100);
        }
        if m == 0 {
            v
        } else {
            v - (SUBPIXELS - m)
        }
    }
}

fn mul_bounded(a: i64, b: i64) -> (r: i64)
    requires
        -1_000_000_000 <= a <= 1_000_000_000,
        -1000 <= b <= 1000,
    ensures
        r == a * b,
        -1_000_000_000_000 <= r <= 1_000_000_000_000,
{
    proof {
        assert(-1_000_000_000_000 <= a * b <= 1_000_000_000_000) by (nonlinear_arith)
            requires
                -1_000_000_000 <= a <= 1_000_000_000,
                -1000 <= b <= 1000,
        ;
    }
    a * b
}

fn abs_i64(v: i64) -> (r: i64)
    requires
        v > i64::MIN,
    ensures
        r == abs(v as int),
{
    if v < 0 {
        -v
    } else {
        v
    }
}

/// Candidate `j` of the trajectory search.
fn candidate(kind: SpiderType, j: usize) -> (r: (i32, i32))
    requires
        j < 12,
    ensures
        (r.0 as int, r.1 as int) == trajectory_candidate(kind, j as int),
        velocity_ok(r.0 as int, r.1 as int),
{
    let (sx, sy) = speed_entry(kind, j / 4);
    let v = j % 4;
    if v == 0 {
        (sx, sy)
    } else if v == 1 {
        (-sx, sy)
    } else if v == 2 {
        (-sx, -sy)
    } else {
        (sx, -sy)
    }
}

/// The velocity picked by table entry `i` and the sign bits: `flip_x`
/// turns the horizontal component round; the vertical one points down or up
/// as `dr` asks (a level entry taking the fast speed), or is turned round by
/// `flip_y` where either way will do.
pub open spec fn velocity_choice(kind: SpiderType, dr: DirRequired, i: int, flip_x: bool, flip_y: bool) -> (int, int) {
    let (sx, sy) = speed_of(kind, i);
    let x = if flip_x { -sx } else { sx };
    let y = match dr {
        DirRequired::Down => non_level(sy),
        DirRequired::Up => -non_level(sy),
        DirRequired::Any => if flip_y { -sy } else { sy },
    };
    (x, y)
}

pub fn velocity_from(kind: SpiderType, dr: DirRequired, i: usize, flip_x: bool, flip_y: bool) -> (r: (i32, i32))
    requires
        i < 3,
    ensures
        (r.0 as int, r.1 as int) == velocity_choice(kind, dr, i as int, flip_x, flip_y),
        velocity_ok(r.0 as int, r.1 as int),
{
    let (x_vel, y_vel) = speed_entry(kind, i);
    let x = if flip_x { -x_vel } else { x_vel };
    let y = match dr {
        DirRequired::Down => if y_vel == 0 { SPEED_FAST } else { y_vel },
        DirRequired::Up => -(if y_vel == 0 { SPEED_FAST } else { y_vel }),
        DirRequired::Any => if flip_y { -y_vel } else { y_vel },
    };
    (x, y)
}

impl Spider {
    pub open spec fn wf(&self) -> bool {
        &&& -POS_LIMIT <= self.x <= POS_LIMIT
        &&& -POS_LIMIT <= self.y <= POS_LIMIT
        &&& self.next_dir_change < WANDER_MAX
        &&& self.next_bomb_release < BOMB_WAIT_MAX
        &&& match self.state {
            SpiderState::Nestle => -NESTLE_LIMIT <= self.x <= NESTLE_LIMIT && -NESTLE_LIMIT <= self.y <= NESTLE_LIMIT,
            SpiderState::Swoop(k, d) => k <= TURN_STEPS && (d == 1 || d == -1),
            SpiderState::Seek(xv, yv, t) => velocity_ok(xv as int, yv as int) && (t matches Some(t) ==> target_ok(t)),
            SpiderState::Descend(t) => target_ok(t),
            SpiderState::Grab(k, _) => k <= TURN_STEPS,
            SpiderState::Carry(xv, yv, t) => velocity_ok(xv as int, yv as int) && (t matches Some(t) ==> target_ok(t)),
            SpiderState::Release(k, _) => k <= TURN_STEPS,
            _ => true,
        }
    }

    pub open spec fn is_alive(&self) -> bool {
        !(self.state is Dead)
    }

    /// Launched and not yet destroyed.
    pub open spec fn is_in_flight(&self) -> bool {
        !(self.state is Dead) && !(self.state is Nestle)
    }

    /// The states in which a spider can be hit.
    pub open spec fn has_hitbox(&self) -> bool {
        ||| self.state is Seek
        ||| self.state is Ascend
        ||| self.state is Carry
        ||| self.state is Release
    }

    pub open spec fn area_spec(&self) -> ScreenObjectArea {
        ScreenObjectArea {
            tl_x: trunc_px(self.x as int) as i32,
            tl_y: trunc_px(self.y as int) as i32,
            br_x: (trunc_px(self.x as int) + SPIDER_WIDTH) as i32,
            br_y: (trunc_px(self.y as int) + SPIDER_HEIGHT) as i32,
        }
    }

    pub fn new() -> (r: Spider)
        ensures
            r.wf(),
            r.state == SpiderState::Nestle,
            r.spider_type == SpiderType::Medium,
    {
        Spider {
            spider_type: SpiderType::Medium,
            state: SpiderState::Nestle,
            x: 0,
            y: 0,
            next_dir_change: 0,
            next_bomb_release: 0,
            anim_offset: 0,
        }
    }

    pub fn alive(&self) -> (r: bool)
        ensures
            r == self.is_alive(),
    {
        match self.state {
            SpiderState::Dead => false,
            _ => true,
        }
    }

    /// Leaves the mother ship where she offers a launch heading: the
    /// position, kept relative to her while nestled, becomes absolute and
    /// the launch arc starts. False, with nothing changed, where she offers
    /// none.
    pub fn launch(&mut self, mother: &Mother) -> (r: bool)
        requires
            old(self).wf(),
            old(self).state == SpiderState::Nestle,
            mother.wf(),
        ensures
            final(self).wf(),
            r == mother.launch_dir_spec() is Some,
            !r ==> *final(self) == *old(self),
            r ==> {
                &&& final(self).state == SpiderState::Swoop(0, mother.launch_dir_spec().unwrap())
                &&& final(self).x == old(self).x + mother.x * SUBPIXELS + SPIDER_WIDTH
                    * SUBPIXELS / 10
                &&& final(self).y == old(self).y + crate::mother::MOTHER_Y * SUBPIXELS
                    - SPIDER_WIDTH * SUBPIXELS / 10
                &&& *final(self) == (Spider { state: final(self).state, x: final(self).x, y: final(self).y, ..*old(self) })
            },
    {
        if let Some(d) = mother.launch_dir() {
            let (mother_x, mother_y) = mother.location();
            self.x = self.x + mother_x * SUBPIXELS + SPIDER_WIDTH * SUBPIXELS / 10;
            self.y = self.y + mother_y * SUBPIXELS - SPIDER_WIDTH * SUBPIXELS / 10;
            self.state = SpiderState::Swoop(0, d);
            true
        } else {
            false
        }
    }

    pub fn trajectory_reaches_target(&self, x_target: i64, y_target: i64, x_vel: i32, y_vel: i32) -> (r: bool)
        requires
            self.wf(),
            -2 * POS_LIMIT <= x_target <= 2 * POS_LIMIT,
            -2 * POS_LIMIT <= y_target <= 2 * POS_LIMIT,
            velocity_ok(x_vel as int, y_vel as int),
        ensures
            r == reaches(self.x as int, self.y as int, x_target as int, y_target as int, x_vel as int, y_vel as int),
    {
        let x = self.x as i64;
        let y = self.y as i64;
        let xv = x_vel as i64;
        let yv = y_vel as i64;
        if xv == 0 || yv == 0 {
            return false;
        }
        let heading = (yv > 0 && y_target >= y) || (yv < 0 && y_target < y);
        let axv = abs_i64(xv);
        let ayv = abs_i64(yv);
        let steep = yv < 0 || axv <= ayv;
        let miss = mul_bounded(x_target - x, yv) + mul_bounded(y - y_target, xv);
        let limit = mul_bounded(axv, ayv);
        heading && steep && abs_i64(miss) < limit
    }

    /// The first velocity of the search order whose path reaches the target.
    pub fn new_trajectory_for_target(&self, x_target: i64, y_target: i64) -> (r: Option<(i32, i32)>)
        requires
            self.wf(),
            -2 * POS_LIMIT <= x_target <= 2 * POS_LIMIT,
            -2 * POS_LIMIT <= y_target <= 2 * POS_LIMIT,
        ensures
            as_int_pair(r) == first_reaching(self.spider_type, self.x as int, self.y as int, x_target as int, y_target as int, 0),
            r matches Some(v) ==> velocity_ok(v.0 as int, v.1 as int),
    {
        let mut j: usize = 0;
        while j < 12
            invariant
                self.wf(),
                -2 * POS_LIMIT <= x_target <= 2 * POS_LIMIT,
                -2 * POS_LIMIT <= y_target <= 2 * POS_LIMIT,
                j <= 12,
                first_reaching(self.spider_type, self.x as int, self.y as int, x_target as int, y_target as int, 0)
                    == first_reaching(self.spider_type, self.x as int, self.y as int, x_target as int, y_target as int, j as int),
            decreases 12 - j,
        {
            let (xv, yv) = candidate(self.spider_type, j);
            if self.trajectory_reaches_target(x_target, y_target, xv, yv) {
                return Some((xv, yv));
            }
            j += 1;
        }
        None
    }

    /// A random velocity of the kind's table with random horizontal sign;
    /// vertically downwards, upwards, or either way, a level entry taking
    /// the fast speed where a direction is required.
    pub fn random_vel(&self, dr: DirRequired, rng: &mut StdRng) -> (r: (i32, i32))
        ensures
            velocity_ok(r.0 as int, r.1 as int),
            exists|i: int, fx: bool, fy: bool|
                0 <= i < 3 && (r.0 as int, r.1 as int) == #[trigger] velocity_choice(self.spider_type, dr, i, fx, fy),
    {
        let i = gen_range_u32(rng, 0, 3) as usize;
        let flip_x = gen_bool(rng);
        let flip_y = match dr {
            DirRequired::Any => gen_bool(rng),
            _ => false,
        };
        velocity_from(self.spider_type, dr, i, flip_x, flip_y)
    }

    /// Bounded random walk: every so often a new random heading, and a
    /// component turned round wherever keeping it would take the spider out
    /// of the flight band. Only the heading timer changes.
    pub fn aimless_wandering(&mut self, x_vel: i32, y_vel: i32, rng: &mut StdRng) -> (r: (i32, i32))
        requires
            old(self).wf(),
            velocity_ok(x_vel as int, y_vel as int),
        ensures
            final(self).wf(),
            *final(self) == (Spider { next_dir_change: final(self).next_dir_change, ..*old(self) }),
            velocity_ok(r.0 as int, r.1 as int),
            old(self).next_dir_change >= 1 ==> final(self).next_dir_change == old(self).next_dir_change - 1,
            old(self).next_dir_change == 0 ==> WANDER_MIN - 1 <= final(self).next_dir_change < WANDER_MAX - 1,
            final(self).next_dir_change != 0 ==> r == (
                bounce(old(self).x as int, x_vel as int, 0, band_x_max()) as i32,
                bounce(old(self).y as int, y_vel as int, band_y_min(), band_y_max()) as i32,
            ),
            in_band(old(self).x as int, old(self).y as int) ==> in_band(
                old(self).x + r.0,
                old(self).y + r.1,
            ),
    {
        if self.next_dir_change == 0 {
            self.next_dir_change = gen_range_u32(rng, WANDER_MIN, WANDER_MAX);
        }
        self.next_dir_change -= 1;
        let (x_vel, y_vel) = if self.next_dir_change == 0 {
            self.random_vel(DirRequired::Any, rng)
        } else {
            (x_vel, y_vel)
        };
        let x_max = (SCREEN_WIDTH as i32 - SPIDER_WIDTH) * SUBPIXELS;
        let y_min = FLIGHT_SPIDER_Y_MIN * SUBPIXELS;
        let y_max = (FLIGHT_SPIDER_Y_MAX - SPIDER_HEIGHT) * SUBPIXELS;
        let x_vel = if (self.x + x_vel > x_max && x_vel > 0) || (self.x + x_vel < 0 && x_vel < 0) {
            -x_vel
        } else {
            x_vel
        };
        let y_vel = if (self.y + y_vel > y_max && y_vel > 0) || (self.y + y_vel < y_min && y_vel < 0) {
            -y_vel
        } else {
            y_vel
        };
        (x_vel, y_vel)
    }

    /// Below the bomb altitude the bomb timer runs, rearmed at random when
    /// it is out; when it runs out a bomb is released below the spider's centre.
    pub fn drop_bomb(&mut self, bombs: &mut Bombs, rng: &mut StdRng)
        requires
            old(self).wf(),
            old(bombs).wf(),
        ensures
            final(self).wf(),
            final(bombs).wf(),
            *final(self) == (Spider { next_bomb_release: final(self).next_bomb_release, ..*old(self) }),
            old(self).y >= BOMB_RELEASE_MAX_Y * SUBPIXELS ==> *final(self) == *old(self) && final(bombs).bomb@
                == old(bombs).bomb@,
            final(self).next_bomb_release != 0 ==> final(bombs).bomb@ == old(bombs).bomb@,
            old(self).y < BOMB_RELEASE_MAX_Y * SUBPIXELS && old(self).next_bomb_release >= 1 ==> final(self).next_bomb_release
                == old(self).next_bomb_release - 1,
            old(self).y < BOMB_RELEASE_MAX_Y * SUBPIXELS && old(self).next_bomb_release == 0 ==> BOMB_WAIT_MIN - 1
                <= final(self).next_bomb_release < BOMB_WAIT_MAX - 1,
            old(self).y < BOMB_RELEASE_MAX_Y * SUBPIXELS && final(self).next_bomb_release == 0 ==> {
                let bx = trunc_px(old(self).x + SPIDER_WIDTH * SUBPIXELS / 2) - crate::bombs::BOMB_HALF_WIDTH;
                let by = trunc_px(old(self).y + SPIDER_HEIGHT * SUBPIXELS);
                match crate::bombs::first_inert(old(bombs).bomb@, 0) {
                    Some(k) => final(bombs).bomb@ == old(bombs).bomb@.update(
                        k,
                        crate::bombs::Bomb { x: bx as i32, y: by as i32, in_flight: true },
                    ),
                    None => final(bombs).bomb@ == old(bombs).bomb@,
                }
            },
    {
        if self.y < BOMB_RELEASE_MAX_Y * SUBPIXELS {
            if self.next_bomb_release == 0 {
                self.next_bomb_release = gen_range_u32(rng, BOMB_WAIT_MIN, BOMB_WAIT_MAX);
            }
            self.next_bomb_release -= 1;
            if self.next_bomb_release == 0 {
                let bx = to_pixels(self.x + SPIDER_WIDTH * SUBPIXELS / 2);
                let by = to_pixels(self.y + SPIDER_HEIGHT * SUBPIXELS);
                bombs.release(bx, by);
            }
        }
    }

    pub fn area(&self) -> (r: ScreenObjectArea)
        requires
            self.wf(),
        ensures
            r == self.area_spec(),
    {
        ScreenObjectArea::new(to_pixels(self.x), to_pixels(self.y), SPIDER_WIDTH as u32, SPIDER_HEIGHT as u32)
    }

    /// The spider can be hit in its current state and its rectangle overlaps
    /// `col_area`. During the deposit the full rectangle counts, although
    /// the spider is turning.
    pub fn collision(&self, col_area: &ScreenObjectArea) -> (r: bool)
        requires
            self.wf(),
        ensures
            r == (self.has_hitbox() && col_area.overlaps(self.area_spec())),
    {
        let collides = col_area.collides(self.area());
        match self.state {
            SpiderState::Seek(_, _, _) => collides,
            SpiderState::Ascend => collides,
            SpiderState::Carry(_, _, _) => collides,
            SpiderState::Release(_, _) => collides,
            _ => false,
        }
    }
}

/// The spider moved by `(xv, yv)`, held within the position limit.
pub open spec fn flies(a: Spider, b: Spider, xv: int, yv: int) -> bool {
    b.x == clamp_pos(a.x + xv) && b.y == clamp_pos(a.y + yv)
}

/// `r` is `v` rounded down to a whole pixel.
pub open spec fn floored_to(v: int, r: int) -> bool {
    r % (SUBPIXELS as int) == 0 && r <= v < r + SUBPIXELS
}

/// The spider now seeks with a fresh downward velocity and no claim.
pub open spec fn seeks_afresh(b: Spider) -> bool {
    match b.state {
        SpiderState::Seek(_, yv, None) => yv > 0,
        _ => false,
    }
}

/// Flying on, in the same variant as `seek` says, still holding `t`.
pub open spec fn flies_holding(a: Spider, b: Spider, t: TargetBrick, seek: bool) -> bool {
    match b.state {
        SpiderState::Seek(nx, ny, Some(t2)) => seek && t2 == t && flies(a, b, nx as int, ny as int),
        SpiderState::Carry(nx, ny, Some(t2)) => !seek && t2 == t && flies(a, b, nx as int, ny as int),
        _ => false,
    }
}

/// Steering with claim `t` held towards point `p`, from velocity `(xv, yv)`,
/// short of arrival: the random walk under restrict; the current velocity
/// where its path reaches `p`; else the first velocity of the search that
/// does; else the random walk. The claim is kept throughout.
pub open spec fn steers(a: Spider, b: Spider, xv: int, yv: int, t: TargetBrick, p: (int, int), restrict: bool, seek: bool) -> bool {
    if restrict || !reaches(a.x as int, a.y as int, p.0, p.1, xv, yv) && first_reaching(a.spider_type, a.x as int, a.y as int, p.0, p.1, 0) is None {
        flies_holding(a, b, t, seek)
    } else if reaches(a.x as int, a.y as int, p.0, p.1, xv, yv) {
        b.state == a.state && flies(a, b, xv, yv)
    } else {
        let v = first_reaching(a.spider_type, a.x as int, a.y as int, p.0, p.1, 0).unwrap();
        flies_holding(a, b, t, seek) && (b.state == SpiderState::Seek(v.0 as i32, v.1 as i32, Some(t)) || b.state
            == SpiderState::Carry(v.0 as i32, v.1 as i32, Some(t)))
    }
}

/// The random walk without a claim: the spider keeps its variant and moves
/// by its new velocity, which is the old one turned at the band's edges
/// unless the heading timer ran out; under restrict no claim is taken.
pub open spec fn wanders_free(a: Spider, b: Spider, xv: int, yv: int, restrict: bool, seek: bool) -> bool {
    match b.state {
        SpiderState::Seek(nx, ny, t2) => seek && flies(a, b, nx as int, ny as int) && (restrict ==> t2 is None) && (b.next_dir_change
            != 0 ==> nx == bounce(a.x as int, xv, 0, band_x_max()) && ny == bounce(a.y as int, yv, band_y_min(), band_y_max())),
        SpiderState::Carry(nx, ny, t2) => !seek && flies(a, b, nx as int, ny as int) && (restrict ==> t2 is None) && (b.next_dir_change
            != 0 ==> nx == bounce(a.x as int, xv, 0, band_x_max()) && ny == bounce(a.y as int, yv, band_y_min(), band_y_max())),
        _ => false,
    }
}

/// What one tick does to a spider itself, whatever the grids answered.
pub open spec fn tick_spec(a: Spider, b: Spider, restrict: bool) -> bool {
    &&& b.spider_type == a.spider_type
    &&& b.anim_offset == a.anim_offset
    &&& (b.state is Nestle <==> a.state is Nestle)
    &&& (b.state is Dead <==> a.state is Dead)
    &&& (wanders(a.state, restrict) && in_band(a.x as int, a.y as int) ==> in_band(b.x as int, b.y as int))
    &&& match a.state {
        SpiderState::Nestle => b == a,
        SpiderState::Dead => b == a,
        SpiderState::Swoop(n, r) => if n < TURN_STEPS {
            b.state == SpiderState::Swoop((n + 1) as u32, r)
        } else {
            &&& seeks_afresh(b)
            &&& floored_to(clamp_pos(a.x - SPIDER_WIDTH * SUBPIXELS / 2), b.x as int)
            &&& floored_to(clamp_pos(a.y - SPIDER_HEIGHT * SUBPIXELS / 2), b.y as int)
        },
        SpiderState::Grab(n, r) => b.x == a.x && b.y == a.y && b.state == if n < TURN_STEPS {
            SpiderState::Grab((n + 1) as u32, r)
        } else {
            SpiderState::Ascend
        },
        SpiderState::Release(n, r) => b.x == a.x && b.y == a.y && if n < TURN_STEPS {
            b.state == SpiderState::Release((n + 1) as u32, r)
        } else {
            seeks_afresh(b)
        },
        SpiderState::Ascend => {
            let y = clamp_pos(a.y - climb_speed(a.spider_type));
            &&& b.x == a.x
            &&& b.y == y
            &&& if y <= SPIDER_ASCEND_Y * SUBPIXELS {
                match b.state {
                    SpiderState::Carry(_, yv, None) => yv < 0,
                    _ => false,
                }
            } else {
                b.state is Ascend
            }
        },
        SpiderState::Descend(t) => {
            let y = clamp_pos(a.y + DESCEND_SPEED);
            &&& b.x == a.x
            &&& b.y == y
            &&& if y >= (t.y - SPIDER_HEIGHT + GRAB_OFFSET_Y) * SUBPIXELS {
                match b.state {
                    SpiderState::Grab(k, r) => k == 0 && (r == 1 || r == -1),
                    _ => false,
                }
            } else {
                b.state == SpiderState::Descend(t)
            }
        },
        SpiderState::Seek(xv, yv, Some(t)) => {
            let p = seek_point(t);
            if !restrict && near(a.x as int, a.y as int, p.0, p.1, xv as int, yv as int) {
                b.x == p.0 && b.y == p.1 && b.state == SpiderState::Descend(t)
            } else {
                steers(a, b, xv as int, yv as int, t, p, restrict, true)
            }
        },
        SpiderState::Carry(xv, yv, Some(t)) => {
            let p = carry_point(t);
            if !restrict && near(a.x as int, a.y as int, p.0, p.1, xv as int, yv as int) {
                &&& b.x == p.0
                &&& b.y == p.1
                &&& match b.state {
                    SpiderState::Release(k, r) => k == 0 && (r == 1 || r == -1),
                    _ => false,
                }
            } else {
                steers(a, b, xv as int, yv as int, t, p, restrict, false)
            }
        },
        SpiderState::Seek(xv, yv, None) => wanders_free(a, b, xv as int, yv as int, restrict, true),
        SpiderState::Carry(xv, yv, None) => wanders_free(a, b, xv as int, yv as int, restrict, false),
    }
}

/// Outcome of one tick of steering towards a held claim.
pub enum Steer {
    Arrive,
    Fly(i32, i32),
}

impl Spider {
    /// The steering policy towards the point `(adj_x, adj_y)`: the random
    /// walk while raiding is held back; arrival within one step of it; the
    /// current velocity where its path reaches it; else the first velocity of
    /// the search that does; else the random walk.
    pub fn steer(&mut self, x_vel: i32, y_vel: i32, adj_x: i32, adj_y: i32, restrict: bool, rng: &mut StdRng) -> (r: Steer)
        requires
            old(self).wf(),
            velocity_ok(x_vel as int, y_vel as int),
            -POS_LIMIT <= adj_x <= POS_LIMIT,
            -POS_LIMIT <= adj_y <= POS_LIMIT,
        ensures
            final(self).wf(),
            *final(self) == (Spider { next_dir_change: final(self).next_dir_change, ..*old(self) }),
            r matches Steer::Fly(a, b) ==> velocity_ok(a as int, b as int),
            (r is Arrive) == (!restrict && near(old(self).x as int, old(self).y as int, adj_x as int, adj_y as int, x_vel as int, y_vel as int)),
            restrict ==> r is Fly && (r matches Steer::Fly(a, b) ==> (in_band(old(self).x as int, old(self).y as int) ==> in_band(old(self).x + a, old(self).y + b))),
            !restrict && !near(old(self).x as int, old(self).y as int, adj_x as int, adj_y as int, x_vel as int, y_vel as int) ==> {
                let cur = reaches(old(self).x as int, old(self).y as int, adj_x as int, adj_y as int, x_vel as int, y_vel as int);
                let found = first_reaching(old(self).spider_type, old(self).x as int, old(self).y as int, adj_x as int, adj_y as int, 0);
                &&& cur ==> r == Steer::Fly(x_vel, y_vel) && *final(self) == *old(self)
                &&& !cur && found is Some ==> (r matches Steer::Fly(a, b) && (a as int, b as int) == found.unwrap()) && *final(self) == *old(self)
            },
    {
        if restrict {
            let (a, b) = self.aimless_wandering(x_vel, y_vel, rng);
            return Steer::Fly(a, b);
        }
        let dx = abs_i64(self.x as i64 - adj_x as i64);
        let dy = abs_i64(self.y as i64 - adj_y as i64);
        if dx < abs_i64(x_vel as i64) && dy < abs_i64(y_vel as i64) {
            return Steer::Arrive;
        }
        if self.trajectory_reaches_target(adj_x as i64, adj_y as i64, x_vel, y_vel) {
            return Steer::Fly(x_vel, y_vel);
        }
        match self.new_trajectory_for_target(adj_x as i64, adj_y as i64) {
            Some((a, b)) => Steer::Fly(a, b),
            None => {
                let (a, b) = self.aimless_wandering(x_vel, y_vel, rng);
                Steer::Fly(a, b)
            },
        }
    }

    fn move_by(&mut self, x_vel: i32, y_vel: i32)
        requires
            -POS_LIMIT <= old(self).x <= POS_LIMIT,
            -POS_LIMIT <= old(self).y <= POS_LIMIT,
            abs(x_vel as int) <= 1000,
            abs(y_vel as int) <= 1000,
        ensures
            *final(self) == (Spider { x: clamp_pos(old(self).x + x_vel) as i32, y: clamp_pos(old(self).y + y_vel) as i32, ..*old(self) }),
    {
        self.x = advance(self.x, x_vel);
        self.y = advance(self.y, y_vel);
    }

    /// One tick of the state machine; see `SpiderState` and `tick_spec`.
    /// Dead and nestled spiders do nothing. While raiding is held back
    /// (`restrict`) a seeking or carrying spider only wanders: it asks for no
    /// claim, keeps any it holds, and drops no bomb. The result reports a
    /// piece taken from the source grid or put into the pattern.
    pub fn update(
        &mut self,
        base_bricks: &mut BaseBricks,
        letter_bricks: &mut LetterBricks,
        bombs: &mut Bombs,
        restrict: bool,
        rng: &mut StdRng,
    ) -> (ev: SpiderEvent)
        requires
            old(self).wf(),
            old(base_bricks).wf(),
            old(letter_bricks).wf(),
            old(bombs).wf(),
            base_claim(old(self).state) matches Some(id) ==> id < crate::base_bricks::BRICK_QTY && old(base_bricks)@.claimed[id as int],
            letter_claim(old(self).state) matches Some(id) ==> id < crate::letter_bricks::BRICKS_QTY && old(letter_bricks)@.claimed[id as int],
        ensures
            final(self).wf(),
            final(base_bricks).wf(),
            final(letter_bricks).wf(),
            final(bombs).wf(),
            final(self).spider_type == old(self).spider_type,
            final(self).anim_offset == old(self).anim_offset,
            final(self).state is Nestle <==> old(self).state is Nestle,
            final(self).state is Dead <==> old(self).state is Dead,
            old(self).state is Nestle || old(self).state is Dead ==> {
                &&& *final(self) == *old(self)
                &&& final(base_bricks)@ == old(base_bricks)@
                &&& final(letter_bricks)@ == old(letter_bricks)@
                &&& final(bombs).bomb@ == old(bombs).bomb@
            },
            final(letter_bricks).to_remove == old(letter_bricks).to_remove,
            base_claim_step(base_claim(old(self).state), base_claim(final(self).state), old(base_bricks)@, final(base_bricks)@),
            letter_claim_step(letter_claim(old(self).state), letter_claim(final(self).state), old(letter_bricks)@, final(letter_bricks)@),
            base_claim(final(self).state) is None || letter_claim(final(self).state) is None,
            (ev == SpiderEvent::Grabbed) == (old(self).state is Descend && final(self).state is Grab),
            (ev == SpiderEvent::Deposited) == (old(self).state is Carry && final(self).state is Release),
            tick_spec(*old(self), *final(self), restrict),
            old(self).state matches SpiderState::Descend(t) ==> final(letter_bricks)@ == old(letter_bricks)@ && final(bombs).bomb@ == old(bombs).bomb@
                && (final(self).state is Grab ==> final(base_bricks)@ == old(base_bricks)@.take(t.brick_id as int)),
            !(old(self).state is Seek || old(self).state is Carry || old(self).state is Descend) ==> {
                &&& final(base_bricks)@ == old(base_bricks)@
                &&& final(letter_bricks)@ == old(letter_bricks)@
                &&& final(bombs).bomb@ == old(bombs).bomb@
            },
            restrict && (old(self).state is Seek || old(self).state is Carry) ==> {
                &&& final(base_bricks)@ == old(base_bricks)@
                &&& final(letter_bricks)@ == old(letter_bricks)@
                &&& final(bombs).bomb@ == old(bombs).bomb@
            },
            old(self).state matches SpiderState::Seek(_, _, None) ==> (!restrict ==> final(letter_bricks)@ == old(letter_bricks)@ && match final(self).state {
                SpiderState::Seek(_, _, r) => {
                    &&& (r is None <==> old(base_bricks).candidates().len() == 0)
                    &&& r is None ==> final(base_bricks)@ == old(base_bricks)@
                    &&& r matches Some(t) ==> {
                        &&& old(base_bricks).eligible(t.brick_id as int)
                        &&& t == crate::base_bricks::target_of(old(base_bricks).x as int, t.brick_id as int)
                        &&& final(base_bricks)@ == old(base_bricks)@.claim(t.brick_id as int)
                    }
                },
                _ => false,
            }),
            old(self).state matches SpiderState::Carry(_, _, None) ==> (!restrict ==> final(base_bricks)@ == old(base_bricks)@ && match final(self).state {
                SpiderState::Carry(_, _, r) => {
                    &&& (r is None <==> old(letter_bricks).candidates().len() == 0)
                    &&& r is None ==> final(letter_bricks)@ == old(letter_bricks)@
                    &&& r matches Some(t) ==> {
                        &&& old(letter_bricks).claimable(t.brick_id as int)
                        &&& t == crate::letter_bricks::letter_target_of(t.brick_id as int)
                        &&& final(letter_bricks)@ == old(letter_bricks)@.claim(t.brick_id as int)
                    }
                },
                _ => false,
            }),
    {
        let mut ev = SpiderEvent::Quiet;
        match self.state {
            SpiderState::Swoop(n, r) => {
                if n < TURN_STEPS {
                    let (dx, dy) = swoop_step(n);
                    self.state = SpiderState::Swoop(n + 1, r);
                    self.move_by(if r < 0 { -dx } else { dx }, dy);
                } else {
                    // from the centre of the spider to its top-left corner, on whole pixels
                    let x = advance(self.x, -(SPIDER_WIDTH * SUBPIXELS / 2));
                    let y = advance(self.y, -(SPIDER_HEIGHT * SUBPIXELS / 2));
                    self.x = floor_to_pixel(x);
                    self.y = floor_to_pixel(y);
                    let (x_vel, y_vel) = self.random_vel(DirRequired::Down, rng);
                    self.state = SpiderState::Seek(x_vel, y_vel, None);
                }
            },
            SpiderState::Seek(x_vel, y_vel, target) => {
                match target {
                    Some(target_brick) => {
                        let adj_x = (target_brick.x - TARGET_OFFSET_X) * SUBPIXELS;
                        let adj_y = (target_brick.y - SPIDER_HEIGHT) * SUBPIXELS;
                        match self.steer(x_vel, y_vel, adj_x, adj_y, restrict, rng) {
                            Steer::Arrive => {
                                self.x = adj_x;
                                self.y = adj_y;
                                self.state = SpiderState::Descend(target_brick);
                            },
                            Steer::Fly(new_x_vel, new_y_vel) => {
                                self.state = SpiderState::Seek(new_x_vel, new_y_vel, target);
                                self.move_by(new_x_vel, new_y_vel);
                            },
                        }
                    },
                    None => {
                        let (new_x_vel, new_y_vel) = self.aimless_wandering(x_vel, y_vel, rng);
                        let new_target = if restrict { None } else { base_bricks.request_target(rng) };
                        self.state = SpiderState::Seek(new_x_vel, new_y_vel, new_target);
                        self.move_by(new_x_vel, new_y_vel);
                    },
                }
                if !restrict {
                    self.drop_bomb(bombs, rng);
                }
            },
            SpiderState::Descend(target) => {
                self.y = advance(self.y, DESCEND_SPEED);
                if self.y >= (target.y - SPIDER_HEIGHT + GRAB_OFFSET_Y) * SUBPIXELS {
                    base_bricks.take_target(target.brick_id);
                    self.state = SpiderState::Grab(0, if gen_bool(rng) { -1 } else { 1 });
                    ev = SpiderEvent::Grabbed;
                }
            },
            SpiderState::Grab(n, r) => {
                if n < TURN_STEPS {
                    self.state = SpiderState::Grab(n + 1, r);
                } else {
                    self.state = SpiderState::Ascend;
                }
            },
            SpiderState::Ascend => {
                let climb = climb_speed_of(self.spider_type);
                self.y = advance(self.y, -climb);
                if self.y <= SPIDER_ASCEND_Y * SUBPIXELS {
                    let (x_vel, y_vel) = self.random_vel(DirRequired::Up, rng);
                    self.state = SpiderState::Carry(x_vel, y_vel, None);
                }
            },
            SpiderState::Carry(x_vel, y_vel, target) => {
                match target {
                    Some(target_brick) => {
                        let adj_x = (target_brick.x - TARGET_OFFSET_X) * SUBPIXELS;
                        let adj_y = target_brick.y * SUBPIXELS;
                        match self.steer(x_vel, y_vel, adj_x, adj_y, restrict, rng) {
                            Steer::Arrive => {
                                letter_bricks.fill_target(target_brick.brick_id);
                                self.state = SpiderState::Release(0, if gen_bool(rng) { -1 } else { 1 });
                                self.x = adj_x;
                                self.y = adj_y;
                                ev = SpiderEvent::Deposited;
                            },
                            Steer::Fly(new_x_vel, new_y_vel) => {
                                self.state = SpiderState::Carry(new_x_vel, new_y_vel, target);
                                self.move_by(new_x_vel, new_y_vel);
                            },
                        }
                    },
                    None => {
                        let (new_x_vel, new_y_vel) = self.aimless_wandering(x_vel, y_vel, rng);
                        let new_target = if restrict { None } else { letter_bricks.request_target(rng) };
                        self.state = SpiderState::Carry(new_x_vel, new_y_vel, new_target);
                        self.move_by(new_x_vel, new_y_vel);
                    },
                }
                if !restrict {
                    self.drop_bomb(bombs, rng);
                }
            },
            SpiderState::Release(n, r) => {
                if n < TURN_STEPS {
                    self.state = SpiderState::Release(n + 1, r);
                } else {
                    let (x_vel, y_vel) = self.random_vel(DirRequired::Down, rng);
                    self.state = SpiderState::Seek(x_vel, y_vel, None);
                }
            },
            _ => {},
        }
        ev
    }
}

/// Number of spiders of `s` that satisfy `p`.
pub open spec fn count_where(s: Seq<Spider>, p: spec_fn(Spider) -> bool) -> nat
    decreases s.len(),
{
    if s.len() == 0 {
        0
    } else {
        count_where(s.drop_last(), p) + if p(s.last()) {
            1nat
        } else {
            0nat
        }
    }
}

pub open spec fn in_flight_pred() -> spec_fn(Spider) -> bool {
    |sp: Spider| sp.is_in_flight()
}

pub open spec fn alive_pred() -> spec_fn(Spider) -> bool {
    |sp: Spider| sp.is_alive()
}

pub proof fn lemma_count_where_update(s: Seq<Spider>, p: spec_fn(Spider) -> bool, i: int, v: Spider)
    requires
        0 <= i < s.len(),
    ensures
        count_where(s.update(i, v), p) + (if p(s[i]) { 1int } else { 0int }) == count_where(s, p) + (
        if p(v) {
            1int
        } else {
            0int
        }),
    decreases s.len(),
{
    let t = s.update(i, v);
    if i == s.len() - 1 {
        assert(t.drop_last() =~= s.drop_last());
    } else {
        assert(t.drop_last() =~= s.drop_last().update(i, v));
        lemma_count_where_update(s.drop_last(), p, i, v);
    }
}

pub proof fn lemma_count_where_positive(s: Seq<Spider>, p: spec_fn(Spider) -> bool, i: int)
    requires
        0 <= i < s.len(),
        p(s[i]),
    ensures
        count_where(s, p) > 0,
    decreases s.len(),
{
    if i < s.len() - 1 {
        lemma_count_where_positive(s.drop_last(), p, i);
    }
}

pub proof fn lemma_count_where_le(s: Seq<Spider>, p: spec_fn(Spider) -> bool)
    ensures
        count_where(s, p) <= s.len(),
    decreases s.len(),
{
    if s.len() > 0 {
        lemma_count_where_le(s.drop_last(), p);
    }
}

pub proof fn lemma_count_where_none(s: Seq<Spider>, p: spec_fn(Spider) -> bool)
    requires
        forall|i: int| 0 <= i < s.len() ==> !p(#[trigger] s[i]),
    ensures
        count_where(s, p) == 0,
    decreases s.len(),
{
    if s.len() > 0 {
        lemma_count_where_none(s.drop_last(), p);
    }
}

pub proof fn lemma_count_where_all(s: Seq<Spider>, p: spec_fn(Spider) -> bool)
    requires
        forall|i: int| 0 <= i < s.len() ==> p(#[trigger] s[i]),
    ensures
        count_where(s, p) == s.len(),
    decreases s.len(),
{
    if s.len() > 0 {
        lemma_count_where_all(s.drop_last(), p);
    }
}

/// Number of roster slots below `n` whose spider went from `a` to `b` in a
/// way that `p` picks out.
pub open spec fn count_changes(a: Seq<Spider>, b: Seq<Spider>, n: int, p: spec_fn(Spider, Spider) -> bool) -> nat
    decreases n,
{
    if n <= 0 {
        0
    } else {
        count_changes(a, b, n - 1, p) + if p(a[n - 1], b[n - 1]) {
            1nat
        } else {
            0nat
        }
    }
}

/// A spider took a piece: from the descent to the pickup.
pub open spec fn took_piece() -> spec_fn(Spider, Spider) -> bool {
    |a: Spider, b: Spider| a.state is Descend && b.state is Grab
}

/// A spider deposited a piece: from carrying to the deposit.
pub open spec fn left_piece() -> spec_fn(Spider, Spider) -> bool {
    |a: Spider, b: Spider| a.state is Carry && b.state is Release
}

/// Counting over the first `n` slots sees only those slots.
pub proof fn lemma_count_changes_prefix(a: Seq<Spider>, b: Seq<Spider>, a2: Seq<Spider>, b2: Seq<Spider>, n: int, p: spec_fn(Spider, Spider) -> bool)
    requires
        forall|k: int| 0 <= k < n ==> p(#[trigger] a[k], b[k]) == p(a2[k], b2[k]),
    ensures
        count_changes(a, b, n, p) == count_changes(a2, b2, n, p),
    decreases n,
{
    if n > 0 {
        assert(p(a[n - 1], b[n - 1]) == p(a2[n - 1], b2[n - 1]));
        lemma_count_changes_prefix(a, b, a2, b2, n - 1, p);
    }
}

pub proof fn lemma_count_changes_le(a: Seq<Spider>, b: Seq<Spider>, n: int, p: spec_fn(Spider, Spider) -> bool)
    ensures
        count_changes(a, b, n, p) <= if n > 0 { n } else { 0 },
    decreases n,
{
    if n > 0 {
        lemma_count_changes_le(a, b, n - 1, p);
    }
}

/// The claims that `claim` reads off the spiders' states match the claimed
/// cells of a grid of `n` cells: each claim is on a claimed cell, no two
/// spiders hold the same claim, and every claimed cell is held by a spider.
pub open spec fn claims_match(s: Seq<Spider>, claim: spec_fn(SpiderState) -> Option<usize>, claimed: Seq<bool>, n: nat) -> bool {
    &&& claimed.len() == n
    &&& forall|i: int|
        0 <= i < s.len() && (#[trigger] claim(s[i].state)) is Some ==> claim(s[i].state).unwrap() < n
            && claimed[claim(s[i].state).unwrap() as int]
    &&& forall|i: int, j: int|
        0 <= i < s.len() && 0 <= j < s.len() && i != j && (#[trigger] claim(s[i].state)) is Some ==> claim(
            s[i].state,
        ) != #[trigger] claim(s[j].state)
    &&& forall|id: int|
        0 <= id < n && #[trigger] claimed[id] ==> exists|i: int| 0 <= i < s.len() && claim(s[i].state) == Some(id as usize)
}

/// A change of one spider's claim that keeps the grid in step: nothing
/// changes, or a free cell becomes claimed by it, or its cell is freed.
pub open spec fn claimed_step(before: Option<usize>, after: Option<usize>, c: Seq<bool>, c2: Seq<bool>) -> bool {
    ||| after == before && c2 == c
    ||| before is None && after is Some && after.unwrap() < c.len() && !c[after.unwrap() as int] && c2
        == c.update(after.unwrap() as int, true)
    ||| before is Some && after is None && before.unwrap() < c.len() && c2 == c.update(before.unwrap() as int, false)
}

pub proof fn lemma_claims_match_step(
    s: Seq<Spider>,
    claim: spec_fn(SpiderState) -> Option<usize>,
    c: Seq<bool>,
    n: nat,
    i: int,
    v: Spider,
    c2: Seq<bool>,
)
    requires
        claims_match(s, claim, c, n),
        n <= 1000,
        0 <= i < s.len(),
        claimed_step(claim(s[i].state), claim(v.state), c, c2),
    ensures
        claims_match(s.update(i, v), claim, c2, n),
{
    let t = s.update(i, v);
    assert forall|k: int|
        0 <= k < t.len() && (#[trigger] claim(t[k].state)) is Some implies claim(t[k].state).unwrap() < n
        && c2[claim(t[k].state).unwrap() as int] by {
        if k != i {
            assert(t[k] == s[k]);
            assert(claim(s[k].state) != claim(s[i].state));
        }
    }
    assert forall|a: int, b: int|
        0 <= a < t.len() && 0 <= b < t.len() && a != b && (#[trigger] claim(t[a].state)) is Some implies claim(
        t[a].state,
    ) != #[trigger] claim(t[b].state) by {
        if a != i && b != i {
            assert(claim(s[a].state) != claim(s[b].state));
        } else if a == i {
            assert(t[b] == s[b]);
            if claim(s[i].state) is None {
                // a fresh claim is on a cell that no one held
                if claim(s[b].state) == claim(v.state) {
                    assert(c[claim(s[b].state).unwrap() as int]);
                }
            } else {
                assert(claim(s[i].state) != claim(s[b].state));
            }
        } else {
            assert(t[a] == s[a]);
            if claim(s[i].state) is None {
                if claim(s[a].state) == claim(v.state) {
                    assert(c[claim(s[a].state).unwrap() as int]);
                }
            } else {
                assert(claim(s[a].state) != claim(s[i].state));
            }
        }
    }
    assert forall|id: int| 0 <= id < n && #[trigger] c2[id] implies exists|k: int|
        0 <= k < t.len() && claim(t[k].state) == Some(id as usize) by {
        if claim(v.state) == Some(id as usize) {
            assert(claim(t[i].state) == Some(id as usize));
        } else {
            if claim(s[i].state) == Some(id as usize) {
                assert(claim(s[i].state).unwrap() == id);
                assert(!c2[id]);
            }
            assert(c[id]);
            let k = choose|k: int| 0 <= k < s.len() && claim(s[k].state) == Some(id as usize);
            assert(k != i);
            assert(claim(t[k].state) == Some(id as usize));
        }
    }
}

pub open spec fn base_claim_fn() -> spec_fn(SpiderState) -> Option<usize> {
    |st: SpiderState| base_claim(st)
}

pub open spec fn letter_claim_fn() -> spec_fn(SpiderState) -> Option<usize> {
    |st: SpiderState| letter_claim(st)
}

/// The wave cap of a screen: one more spider in flight for each screen,
/// up to the absolute cap.
pub open spec fn max_in_flight_for(screen: int) -> int {
    if INIT_IN_FLIGHT + screen - 1 < MAX_IN_FLIGHT {
        INIT_IN_FLIGHT + screen - 1
    } else {
        MAX_IN_FLIGHT as int
    }
}

/// Nestling place of roster slot `i`, relative to the mother ship, in sub-pixels.
pub open spec fn nestle_x(i: int) -> int {
    ((i % NESTLE_PER_ROW as int) * 6 + 5) * SUBPIXELS
}

pub open spec fn nestle_y(i: int) -> int {
    ((i / NESTLE_PER_ROW as int) * 8 - 16) * SUBPIXELS
}

pub open spec fn kind_of_slot(i: int) -> SpiderType {
    if i < SLOW_SPIDERS {
        SpiderType::Slow
    } else if i >= FIRST_FAST_SPIDER {
        SpiderType::Fast
    } else {
        SpiderType::Medium
    }
}

pub open spec fn kind_index(k: SpiderType) -> usize {
    match k {
        SpiderType::Slow => 0,
        SpiderType::Medium => 1,
        SpiderType::Fast => 2,
    }
}

/// Index of the first spider from `from` on that can be hit and overlaps `area`.
pub open spec fn first_spider_hit(s: Seq<Spider>, area: ScreenObjectArea, from: int) -> Option<int>
    decreases s.len() - from,
{
    if from < 0 || from >= s.len() {
        None
    } else if s[from].has_hitbox() && area.overlaps(s[from].area_spec()) {
        Some(from)
    } else {
        first_spider_hit(s, area, from + 1)
    }
}

pub open spec fn as_int_opt(o: Option<usize>) -> Option<int> {
    match o {
        Some(v) => Some(v as int),
        None => None,
    }
}

/// What became of a spider that was destroyed, for the explosion and the score.
#[derive(Clone, Copy, PartialEq, Eq, Structural, Debug)]
pub struct KillReport {
    pub spider_type: usize,
    pub x: i32,
    pub y: i32,
}

pub struct Spiders {
    pub spiders_left: u32,
    pub spiders_in_flight: u32,
    pub next_spider_launch: usize,
    pub last_launch_frame: u32,
    pub max_spiders_in_flight: u32,
    pub next_wave_countdown: u32,
    pub spider: Vec<Spider>,
    pub sound_on: bool,
}

impl Spiders {
    pub open spec fn wf(&self) -> bool {
        &&& self.spider@.len() == NUMBER_OF_SPIDERS
        &&& forall|i: int| 0 <= i < NUMBER_OF_SPIDERS ==> (#[trigger] self.spider@[i]).wf()
        &&& self.spiders_in_flight == count_where(self.spider@, in_flight_pred())
        &&& self.spiders_left == count_where(self.spider@, alive_pred())
        &&& self.next_spider_launch <= NUMBER_OF_SPIDERS
        &&& forall|i: int|
            self.next_spider_launch <= i < NUMBER_OF_SPIDERS ==> (#[trigger] self.spider@[i]).state is Nestle
                || self.spider@[i].state is Dead
        &&& self.spiders_in_flight <= self.max_spiders_in_flight <= MAX_IN_FLIGHT
        &&& self.next_wave_countdown < WAVE_REST_MAX
    }

    /// The claims held by the spiders and the claimed cells of both grids
    /// are in one-to-one correspondence.
    pub open spec fn claims_consistent(&self, base: GridView, letters: GridView) -> bool {
        &&& claims_match(self.spider@, base_claim_fn(), base.claimed, crate::base_bricks::BRICK_QTY as nat)
        &&& claims_match(self.spider@, letter_claim_fn(), letters.claimed, crate::letter_bricks::BRICKS_QTY as nat)
    }

    /// No spider holds a claim.
    pub open spec fn holds_no_claims(&self) -> bool {
        forall|i: int|
            0 <= i < self.spider@.len() ==> base_claim((#[trigger] self.spider@[i]).state) is None
                && letter_claim(self.spider@[i].state) is None
    }
    /// A fresh roster: slow spiders first, fast ones last, all nestled, each
    /// with a random phase for its animation.
    pub fn new(rng: &mut StdRng) -> (r: Spiders)
        ensures
            r.wf(),
            r.holds_no_claims(),
            r.spiders_left == NUMBER_OF_SPIDERS,
            r.spiders_in_flight == 0,
            r.max_spiders_in_flight == DEMO_IN_FLIGHT,
            !r.sound_on,
            forall|i: int|
                0 <= i < NUMBER_OF_SPIDERS ==> {
                    let sp = #[trigger] r.spider@[i];
                    &&& sp.state == SpiderState::Nestle
                    &&& sp.spider_type == kind_of_slot(i)
                    &&& sp.x == nestle_x(i)
                    &&& sp.y == nestle_y(i)
                    &&& sp.anim_offset < SPIDER_PERIOD
                },
    {
        let mut spider: Vec<Spider> = Vec::new();
        let mut i: usize = 0;
        while i < NUMBER_OF_SPIDERS
            invariant
                i <= NUMBER_OF_SPIDERS,
                spider@.len() == i,
                forall|k: int|
                    0 <= k < i ==> {
                        let sp = #[trigger] spider@[k];
                        &&& sp.wf()
                        &&& sp.state == SpiderState::Nestle
                        &&& sp.spider_type == kind_of_slot(k)
                        &&& sp.x == nestle_x(k)
                        &&& sp.y == nestle_y(k)
                        &&& sp.anim_offset < SPIDER_PERIOD
                    },
            decreases NUMBER_OF_SPIDERS - i,
        {
            let mut sp = Spider::new();
            if i < SLOW_SPIDERS {
                sp.spider_type = SpiderType::Slow;
            } else if i >= FIRST_FAST_SPIDER {
                sp.spider_type = SpiderType::Fast;
            }
            sp.y = (((i / NESTLE_PER_ROW) * 8) as i32 - 16) * SUBPIXELS;
            sp.x = (((i % NESTLE_PER_ROW) * 6 + 5) as i32) * SUBPIXELS;
            sp.anim_offset = gen_range_u32(rng, 0, SPIDER_PERIOD);
            spider.push(sp);
            i += 1;
        }
        let r = Spiders {
            spiders_left: NUMBER_OF_SPIDERS as u32,
            spiders_in_flight: 0,
            next_spider_launch: 0,
            last_launch_frame: 0,
            max_spiders_in_flight: DEMO_IN_FLIGHT,
            next_wave_countdown: 0,
            spider,
            sound_on: false,
        };
        proof {
            lemma_count_where_none(r.spider@, in_flight_pred());
            lemma_count_where_all(r.spider@, alive_pred());
        }
        r
    }

    /// Back to the start of a screen: every spider nestled on the mother
    /// ship again, the counters cleared, and the wave cap of screen `screen`.
    pub fn reset(&mut self, screen: u32)
        requires
            old(self).wf(),
        ensures
            final(self).wf(),
            final(self).holds_no_claims(),
            final(self).spiders_left == NUMBER_OF_SPIDERS,
            final(self).spiders_in_flight == 0,
            final(self).next_spider_launch == 0,
            final(self).last_launch_frame == 0,
            final(self).next_wave_countdown == 0,
            final(self).max_spiders_in_flight == max_in_flight_for(screen as int),
            final(self).sound_on == old(self).sound_on,
            forall|i: int|
                0 <= i < NUMBER_OF_SPIDERS ==> {
                    let sp = #[trigger] final(self).spider@[i];
                    &&& sp.state == SpiderState::Nestle
                    &&& sp.spider_type == old(self).spider@[i].spider_type
                    &&& sp.anim_offset == old(self).spider@[i].anim_offset
                    &&& sp.x == nestle_x(i)
                    &&& sp.y == nestle_y(i)
                },
    {
        let mut i: usize = 0;
        while i < NUMBER_OF_SPIDERS
            invariant
                i <= NUMBER_OF_SPIDERS,
                self.spider@.len() == NUMBER_OF_SPIDERS,
                old(self).spider@.len() == NUMBER_OF_SPIDERS,
                self.sound_on == old(self).sound_on,
                forall|k: int| i <= k < NUMBER_OF_SPIDERS ==> #[trigger] self.spider@[k] == old(self).spider@[k],
                forall|k: int|
                    0 <= k < i ==> {
                        let sp = #[trigger] self.spider@[k];
                        &&& sp.wf()
                        &&& sp.state == SpiderState::Nestle
                        &&& sp.spider_type == old(self).spider@[k].spider_type
                        &&& sp.anim_offset == old(self).spider@[k].anim_offset
                        &&& sp.x == nestle_x(k)
                        &&& sp.y == nestle_y(k)
                    },
            decreases NUMBER_OF_SPIDERS - i,
        {
            let mut sp = self.spider[i];
            sp.y = (((i / NESTLE_PER_ROW) * 8) as i32 - 16) * SUBPIXELS;
            sp.x = (((i % NESTLE_PER_ROW) * 6 + 5) as i32) * SUBPIXELS;
            sp.state = SpiderState::Nestle;
            sp.next_dir_change = 0;
            sp.next_bomb_release = 0;
            self.spider.set(i, sp);
            i += 1;
        }
        self.spiders_left = NUMBER_OF_SPIDERS as u32;
        self.spiders_in_flight = 0;
        self.next_spider_launch = 0;
        self.last_launch_frame = 0;
        self.max_spiders_in_flight = if screen >= MAX_IN_FLIGHT - INIT_IN_FLIGHT + 1 {
            MAX_IN_FLIGHT
        } else {
            INIT_IN_FLIGHT + screen - 1
        };
        self.next_wave_countdown = 0;
        proof {
            lemma_count_where_none(self.spider@, in_flight_pred());
            lemma_count_where_all(self.spider@, alive_pred());
        }
    }

    /// The next unlaunched spider may leave this tick: room under the wave
    /// cap, no rest between waves, the first launch frame passed, enough
    /// frames since the last launch, and raiding not held back.
    pub open spec fn may_launch(&self, countdown: u32, restrict: bool, frame_count: u32) -> bool {
        &&& self.spiders_in_flight < self.max_spiders_in_flight
        &&& countdown == 0
        &&& self.next_spider_launch < NUMBER_OF_SPIDERS
        &&& frame_count > FIRST_LAUNCH
        &&& frame_count >= self.last_launch_frame
        &&& frame_count - self.last_launch_frame >= FRAMES_BETWEEN_LAUNCHES
        &&& !restrict
    }

    /// One tick of the roster: the rest between waves is armed when the wave
    /// is full, cleared when no spider flies, and otherwise counts down; the
    /// next spider launches where it may and the mother ship offers a
    /// heading; then every live spider takes its tick, in roster order. The
    /// result counts the pieces taken and deposited.
    pub fn update(
        &mut self,
        mother: &Mother,
        base_bricks: &mut BaseBricks,
        letter_bricks: &mut LetterBricks,
        bombs: &mut Bombs,
        restrict: bool,
        frame_count: u32,
        rng: &mut StdRng,
    ) -> (r: (u32, u32))
        requires
            old(self).wf(),
            mother.wf(),
            old(base_bricks).wf(),
            old(letter_bricks).wf(),
            old(bombs).wf(),
            old(self).claims_consistent(old(base_bricks)@, old(letter_bricks)@),
        ensures
            final(self).wf(),
            final(base_bricks).wf(),
            final(letter_bricks).wf(),
            final(bombs).wf(),
            final(self).claims_consistent(final(base_bricks)@, final(letter_bricks)@),
            final(letter_bricks).to_remove == old(letter_bricks).to_remove,
            final(self).max_spiders_in_flight == old(self).max_spiders_in_flight,
            final(self).spiders_left == old(self).spiders_left,
            final(self).sound_on == old(self).sound_on,
            old(self).spiders_in_flight == old(self).max_spiders_in_flight && old(self).next_wave_countdown == 0
                ==> WAVE_REST_MIN <= final(self).next_wave_countdown < WAVE_REST_MAX,
            !(old(self).spiders_in_flight == old(self).max_spiders_in_flight && old(self).next_wave_countdown == 0)
                && old(self).spiders_in_flight == 0 ==> final(self).next_wave_countdown == 0,
            !(old(self).spiders_in_flight == old(self).max_spiders_in_flight && old(self).next_wave_countdown == 0)
                && old(self).spiders_in_flight != 0 && old(self).next_wave_countdown > 0 ==> final(self).next_wave_countdown
                == old(self).next_wave_countdown - 1,
            ({
                let eligible = old(self).may_launch(final(self).next_wave_countdown, restrict, frame_count);
                let next = old(self).next_spider_launch as int;
                let launched = eligible && old(self).spider@[next].state is Nestle && mother.launch_dir_spec() is Some;
                let skipped = eligible && old(self).spider@[next].state is Dead;
                &&& launched ==> final(self).next_spider_launch == old(self).next_spider_launch + 1
                    && final(self).spiders_in_flight == old(self).spiders_in_flight + 1
                    && final(self).last_launch_frame == frame_count
                    && final(self).spider@[next].state is Swoop
                &&& skipped ==> final(self).next_spider_launch == old(self).next_spider_launch + 1
                    && final(self).spiders_in_flight == old(self).spiders_in_flight
                    && final(self).last_launch_frame == old(self).last_launch_frame
                &&& !launched && !skipped ==> final(self).next_spider_launch == old(self).next_spider_launch
                    && final(self).spiders_in_flight == old(self).spiders_in_flight
                    && final(self).last_launch_frame == old(self).last_launch_frame
                &&& !launched ==> forall|i: int| 0 <= i < NUMBER_OF_SPIDERS ==> tick_spec(
                    old(self).spider@[i],
                    #[trigger] final(self).spider@[i],
                    restrict,
                )
            }),
            forall|i: int|
                0 <= i < NUMBER_OF_SPIDERS && i != old(self).next_spider_launch ==> tick_spec(
                    old(self).spider@[i],
                    #[trigger] final(self).spider@[i],
                    restrict,
                ),
            forall|i: int| 0 <= i < NUMBER_OF_SPIDERS ==> (#[trigger] final(self).spider@[i]).spider_type == old(self).spider@[i].spider_type,
            r.0 == count_changes(old(self).spider@, final(self).spider@, NUMBER_OF_SPIDERS as int, took_piece()),
            r.1 == count_changes(old(self).spider@, final(self).spider@, NUMBER_OF_SPIDERS as int, left_piece()),
    {
        if self.spiders_in_flight == self.max_spiders_in_flight && self.next_wave_countdown == 0 {
            self.next_wave_countdown = gen_range_u32(rng, WAVE_REST_MIN, WAVE_REST_MAX);
        } else if self.spiders_in_flight == 0 {
            self.next_wave_countdown = 0;
        } else if self.next_wave_countdown > 0 {
            self.next_wave_countdown -= 1;
        }
        if self.spiders_in_flight < self.max_spiders_in_flight && self.next_wave_countdown == 0
            && self.next_spider_launch < NUMBER_OF_SPIDERS && frame_count > FIRST_LAUNCH
            && frame_count >= self.last_launch_frame && frame_count - self.last_launch_frame
            >= FRAMES_BETWEEN_LAUNCHES && !restrict {
            let next = self.next_spider_launch;
            let mut sp = self.spider[next];
            if !sp.alive() {
                // a spider destroyed before its launch gives up its turn
                self.next_spider_launch += 1;
            } else if sp.launch(mother) {
                proof {
                    lemma_count_where_update(self.spider@, in_flight_pred(), next as int, sp);
                    lemma_count_where_update(self.spider@, alive_pred(), next as int, sp);
                    assert(base_claim(sp.state) is None && letter_claim(sp.state) is None);
                    lemma_claims_match_step(self.spider@, base_claim_fn(), base_bricks@.claimed, 48, next as int, sp, base_bricks@.claimed);
                    lemma_claims_match_step(self.spider@, letter_claim_fn(), letter_bricks@.claimed, 86, next as int, sp, letter_bricks@.claimed);
                }
                self.spider.set(next, sp);
                self.next_spider_launch += 1;
                self.spiders_in_flight += 1;
                self.last_launch_frame = frame_count;
            }
        }
        proof {
            assert(forall|k: int| 0 <= k < NUMBER_OF_SPIDERS && k != old(self).next_spider_launch ==> #[trigger] self.spider@[k] == old(self).spider@[k]);
        }
        let ghost mid = *self;
        let mut taken: u32 = 0;
        let mut deposited: u32 = 0;
        let mut i: usize = 0;
        while i < NUMBER_OF_SPIDERS
            invariant
                i <= NUMBER_OF_SPIDERS,
                self.wf(),
                mother.wf(),
                base_bricks.wf(),
                letter_bricks.wf(),
                bombs.wf(),
                self.claims_consistent(base_bricks@, letter_bricks@),
                letter_bricks.to_remove == old(letter_bricks).to_remove,
                self.max_spiders_in_flight == mid.max_spiders_in_flight,
                self.spiders_left == mid.spiders_left,
                self.spiders_in_flight == mid.spiders_in_flight,
                self.next_spider_launch == mid.next_spider_launch,
                self.last_launch_frame == mid.last_launch_frame,
                self.next_wave_countdown == mid.next_wave_countdown,
                self.sound_on == mid.sound_on,
                forall|k: int| 0 <= k < NUMBER_OF_SPIDERS ==> (#[trigger] self.spider@[k]).spider_type == old(self).spider@[k].spider_type,
                forall|k: int| i <= k < NUMBER_OF_SPIDERS ==> #[trigger] self.spider@[k] == mid.spider@[k],
                mid.spider@.len() == NUMBER_OF_SPIDERS,
                forall|k: int| 0 <= k < NUMBER_OF_SPIDERS ==> ((#[trigger] mid.spider@[k]).state is Descend
                    <==> old(self).spider@[k].state is Descend) && (mid.spider@[k].state is Carry <==> old(self).spider@[k].state is Carry),
                forall|k: int| 0 <= k < i ==> tick_spec(mid.spider@[k], #[trigger] self.spider@[k], restrict),
                taken == count_changes(mid.spider@, self.spider@, i as int, took_piece()),
                deposited == count_changes(mid.spider@, self.spider@, i as int, left_piece()),
                taken <= i && deposited <= i,
            decreases NUMBER_OF_SPIDERS - i,
        {
            let mut sp = self.spider[i];
            if sp.alive() {
                let ghost before = sp;
                let ghost s0 = self.spider@;
                let ghost b0 = base_bricks@;
                let ghost l0 = letter_bricks@;
                proof {
                    assert(s0[i as int] == before);
                    if base_claim(before.state) is Some {
                        assert(base_claim_fn()(s0[i as int].state) is Some);
                    }
                    if letter_claim(before.state) is Some {
                        assert(letter_claim_fn()(s0[i as int].state) is Some);
                    }
                }
                let ev = sp.update(base_bricks, letter_bricks, bombs, restrict, rng);
                proof {
                    lemma_count_where_update(s0, in_flight_pred(), i as int, sp);
                    lemma_count_where_update(s0, alive_pred(), i as int, sp);
                    assert(claimed_step(base_claim_fn()(s0[i as int].state), base_claim_fn()(sp.state), b0.claimed, base_bricks@.claimed));
                    assert(claimed_step(letter_claim_fn()(s0[i as int].state), letter_claim_fn()(sp.state), l0.claimed, letter_bricks@.claimed));
                    lemma_claims_match_step(s0, base_claim_fn(), b0.claimed, 48, i as int, sp, base_bricks@.claimed);
                    lemma_claims_match_step(s0, letter_claim_fn(), l0.claimed, 86, i as int, sp, letter_bricks@.claimed);
                }
                let ghost s1 = self.spider@;
                self.spider.set(i, sp);
                proof {
                    lemma_count_changes_prefix(mid.spider@, s1, mid.spider@, self.spider@, i as int, took_piece());
                    lemma_count_changes_prefix(mid.spider@, s1, mid.spider@, self.spider@, i as int, left_piece());
                    lemma_count_changes_le(mid.spider@, s1, i as int, took_piece());
                    lemma_count_changes_le(mid.spider@, s1, i as int, left_piece());
                }
                match ev {
                    SpiderEvent::Grabbed => taken += 1,
                    SpiderEvent::Deposited => deposited += 1,
                    SpiderEvent::Quiet => {},
                }
            } else {
                proof {
                    assert(self.spider@[i as int] == mid.spider@[i as int]);
                }
            }
            i += 1;
        }
        proof {
            let n = NUMBER_OF_SPIDERS as int;
            lemma_count_changes_prefix(mid.spider@, self.spider@, old(self).spider@, self.spider@, n, took_piece());
            lemma_count_changes_prefix(mid.spider@, self.spider@, old(self).spider@, self.spider@, n, left_piece());
        }
        (taken, deposited)
    }

    /// The first spider, in roster order, that can be hit and overlaps `col_area`.
    pub fn collision(&self, col_area: ScreenObjectArea) -> (r: Option<usize>)
        requires
            self.wf(),
        ensures
            as_int_opt(r) == first_spider_hit(self.spider@, col_area, 0),
    {
        let mut i: usize = 0;
        while i < NUMBER_OF_SPIDERS
            invariant
                self.wf(),
                i <= NUMBER_OF_SPIDERS,
                first_spider_hit(self.spider@, col_area, 0) == first_spider_hit(self.spider@, col_area, i as int),
            decreases NUMBER_OF_SPIDERS - i,
        {
            if self.spider[i].collision(&col_area) {
                return Some(i);
            }
            i += 1;
        }
        None
    }

    /// The cell claimed by a seeking or carrying spider, if any.
    pub fn target_brick_id(&self, spider_id: usize) -> (r: Option<usize>)
        requires
            self.wf(),
            spider_id < NUMBER_OF_SPIDERS,
        ensures
            r == match self.spider@[spider_id as int].state {
                SpiderState::Seek(_, _, Some(t)) => Some(t.brick_id),
                SpiderState::Carry(_, _, Some(t)) => Some(t.brick_id),
                _ => None,
            },
    {
        match self.spider[spider_id].state {
            SpiderState::Seek(_, _, target) => {
                if let Some(target_brick) = target {
                    Some(target_brick.brick_id)
                } else {
                    None
                }
            },
            SpiderState::Carry(_, _, target) => {
                if let Some(target_brick) = target {
                    Some(target_brick.brick_id)
                } else {
                    None
                }
            },
            _ => None,
        }
    }

    pub fn carrying(&self, spider_id: usize) -> (r: bool)
        requires
            self.wf(),
            spider_id < NUMBER_OF_SPIDERS,
        ensures
            r == self.spider@[spider_id as int].state is Carry,
    {
        match self.spider[spider_id].state {
            SpiderState::Carry(_, _, _) => true,
            _ => false,
        }
    }

    /// 0 for slow, 1 for medium, 2 for fast.
    pub fn spider_type(&self, spider_id: usize) -> (r: usize)
        requires
            self.wf(),
            spider_id < NUMBER_OF_SPIDERS,
        ensures
            r == kind_index(self.spider@[spider_id as int].spider_type),
    {
        match self.spider[spider_id].spider_type {
            SpiderType::Slow => 0,
            SpiderType::Medium => 1,
            SpiderType::Fast => 2,
        }
    }

    /// The spider in roster slot `spider_id`, to be drawn.
    pub fn get(&self, spider_id: usize) -> (r: Spider)
        requires
            self.wf(),
            spider_id < NUMBER_OF_SPIDERS,
        ensures
            r == self.spider@[spider_id as int],
    {
        self.spider[spider_id]
    }

    /// Destroys a spider, whatever its state: any claim it holds goes back to
    /// its grid and it is dead; the count of spiders in flight drops by one
    /// if it was in flight, and the count left by one if it was alive.
    /// Reports its kind and its pixel position.
    pub fn kill(&mut self, spider_id: usize, base_bricks: &mut BaseBricks, letter_bricks: &mut LetterBricks) -> (r: KillReport)
        requires
            old(self).wf(),
            old(base_bricks).wf(),
            old(letter_bricks).wf(),
            old(self).claims_consistent(old(base_bricks)@, old(letter_bricks)@),
            spider_id < NUMBER_OF_SPIDERS,
        ensures
            final(self).wf(),
            final(base_bricks).wf(),
            final(letter_bricks).wf(),
            final(self).claims_consistent(final(base_bricks)@, final(letter_bricks)@),
            final(self).spider@ == old(self).spider@.update(
                spider_id as int,
                Spider { state: SpiderState::Dead, ..old(self).spider@[spider_id as int] },
            ),
            final(self).spiders_in_flight == old(self).spiders_in_flight - if old(self).spider@[spider_id as int].is_in_flight() { 1int } else { 0 },
            final(self).spiders_left == old(self).spiders_left - if old(self).spider@[spider_id as int].is_alive() { 1int } else { 0 },
            final(self).max_spiders_in_flight == old(self).max_spiders_in_flight,
            final(self).next_spider_launch == old(self).next_spider_launch,
            final(self).sound_on == old(self).sound_on,
            final(letter_bricks).to_remove == old(letter_bricks).to_remove,
            base_claim(old(self).spider@[spider_id as int].state) matches Some(id) ==> final(base_bricks)@ == old(base_bricks)@.release(id as int),
            base_claim(old(self).spider@[spider_id as int].state) is None ==> final(base_bricks)@ == old(base_bricks)@,
            letter_claim(old(self).spider@[spider_id as int].state) matches Some(id) ==> final(letter_bricks)@ == old(letter_bricks)@.release(id as int),
            letter_claim(old(self).spider@[spider_id as int].state) is None ==> final(letter_bricks)@ == old(letter_bricks)@,
            r.spider_type == kind_index(old(self).spider@[spider_id as int].spider_type),
            r.x == trunc_px(old(self).spider@[spider_id as int].x as int),
            r.y == trunc_px(old(self).spider@[spider_id as int].y as int),
    {
        let sp = self.spider[spider_id];
        proof {
            assert(base_claim_fn()(self.spider@[spider_id as int].state) == base_claim(sp.state));
            assert(letter_claim_fn()(self.spider@[spider_id as int].state) == letter_claim(sp.state));
        }
        match sp.state {
            SpiderState::Seek(_, _, Some(t)) => base_bricks.untarget(t.brick_id),
            SpiderState::Descend(t) => base_bricks.untarget(t.brick_id),
            SpiderState::Carry(_, _, Some(t)) => letter_bricks.untarget(t.brick_id),
            _ => {},
        }
        let dead = Spider { state: SpiderState::Dead, ..sp };
        proof {
            lemma_count_where_update(self.spider@, in_flight_pred(), spider_id as int, dead);
            lemma_count_where_update(self.spider@, alive_pred(), spider_id as int, dead);
            lemma_claims_match_step(self.spider@, base_claim_fn(), old(base_bricks)@.claimed, 48, spider_id as int, dead, base_bricks@.claimed);
            lemma_claims_match_step(self.spider@, letter_claim_fn(), old(letter_bricks)@.claimed, 86, spider_id as int, dead, letter_bricks@.claimed);
        }
        let was_alive = sp.alive();
        let was_flying = match sp.state {
            SpiderState::Nestle => false,
            SpiderState::Dead => false,
            _ => true,
        };
        self.spider.set(spider_id, dead);
        if was_flying {
            self.spiders_in_flight -= 1;
        }
        if was_alive {
            self.spiders_left -= 1;
        }
        KillReport { spider_type: self.spider_type(spider_id), x: to_pixels(sp.x), y: to_pixels(sp.y) }
    }

    pub fn spiders_remain(&self) -> (r: bool)
        ensures
            r == (self.spiders_left > 0),
    {
        self.spiders_left > 0
    }

    /// No live spider is below the flight band.
    pub fn clear(&self) -> (r: bool)
        requires
            self.wf(),
        ensures
            r == !exists|i: int|
                0 <= i < NUMBER_OF_SPIDERS && (#[trigger] self.spider@[i]).is_alive() && self.spider@[i].y
                    > FLIGHT_SPIDER_Y_MAX * SUBPIXELS,
    {
        let mut i: usize = 0;
        while i < NUMBER_OF_SPIDERS
            invariant
                self.wf(),
                i <= NUMBER_OF_SPIDERS,
                forall|k: int|
                    0 <= k < i ==> !((#[trigger] self.spider@[k]).is_alive() && self.spider@[k].y > FLIGHT_SPIDER_Y_MAX
                        * SUBPIXELS),
            decreases NUMBER_OF_SPIDERS - i,
        {
            let sp = self.spider[i];
            if sp.alive() && sp.y > FLIGHT_SPIDER_Y_MAX * SUBPIXELS {
                return false;
            }
            i += 1;
        }
        true
    }

    pub fn turn_sound_on(&mut self)
        ensures
            *final(self) == (Spiders { sound_on: true, ..*old(self) }),
    {
        self.sound_on = true;
    }

    pub fn turn_sound_off(&mut self)
        ensures
            *final(self) == (Spiders { sound_on: false, ..*old(self) }),
    {
        self.sound_on = false;
    }

    /// Claim exclusivity: whenever the roster and the grids are consistent,
    /// which every operation keeps, no cell is claimed by two spiders, and a
    /// cell is marked claimed exactly when some spider holds a claim on it.
    pub proof fn law_claim_exclusivity(&self, base: GridView, letters: GridView)
        requires
            self.claims_consistent(base, letters),
        ensures
            forall|i: int, j: int|
                0 <= i < self.spider@.len() && 0 <= j < self.spider@.len() && i != j && base_claim(
                    (#[trigger] self.spider@[i]).state,
                ) is Some ==> base_claim(self.spider@[i].state) != base_claim((#[trigger] self.spider@[j]).state),
            forall|i: int, j: int|
                0 <= i < self.spider@.len() && 0 <= j < self.spider@.len() && i != j && letter_claim(
                    (#[trigger] self.spider@[i]).state,
                ) is Some ==> letter_claim(self.spider@[i].state) != letter_claim((#[trigger] self.spider@[j]).state),
            forall|id: int|
                0 <= id < crate::base_bricks::BRICK_QTY ==> (#[trigger] base.claimed[id] <==> exists|i: int|
                    0 <= i < self.spider@.len() && base_claim(self.spider@[i].state) == Some(id as usize)),
            forall|id: int|
                0 <= id < crate::letter_bricks::BRICKS_QTY ==> (#[trigger] letters.claimed[id] <==> exists|i: int|
                    0 <= i < self.spider@.len() && letter_claim(self.spider@[i].state) == Some(id as usize)),
    {
        let s = self.spider@;
        assert forall|i: int, j: int|
            0 <= i < s.len() && 0 <= j < s.len() && i != j && base_claim((#[trigger] s[i]).state) is Some implies base_claim(
            s[i].state,
        ) != base_claim((#[trigger] s[j]).state) by {
            assert(base_claim_fn()(s[i].state) != base_claim_fn()(s[j].state));
        }
        assert forall|i: int, j: int|
            0 <= i < s.len() && 0 <= j < s.len() && i != j && letter_claim((#[trigger] s[i]).state) is Some implies letter_claim(
            s[i].state,
        ) != letter_claim((#[trigger] s[j]).state) by {
            assert(letter_claim_fn()(s[i].state) != letter_claim_fn()(s[j].state));
        }
        assert forall|id: int| 0 <= id < crate::base_bricks::BRICK_QTY implies (#[trigger] base.claimed[id] <==> exists|i: int|
            0 <= i < s.len() && base_claim(s[i].state) == Some(id as usize)) by {
            if base.claimed[id] {
                let i = choose|i: int| 0 <= i < s.len() && base_claim_fn()(s[i].state) == Some(id as usize);
                assert(base_claim(s[i].state) == Some(id as usize));
            }
            if exists|i: int| 0 <= i < s.len() && base_claim(s[i].state) == Some(id as usize) {
                let i = choose|i: int| 0 <= i < s.len() && base_claim(s[i].state) == Some(id as usize);
                assert(base_claim_fn()(s[i].state) is Some);
            }
        }
        assert forall|id: int| 0 <= id < crate::letter_bricks::BRICKS_QTY implies (#[trigger] letters.claimed[id] <==> exists|i: int|
            0 <= i < s.len() && letter_claim(s[i].state) == Some(id as usize)) by {
            if letters.claimed[id] {
                let i = choose|i: int| 0 <= i < s.len() && letter_claim_fn()(s[i].state) == Some(id as usize);
                assert(letter_claim(s[i].state) == Some(id as usize));
            }
            if exists|i: int| 0 <= i < s.len() && letter_claim(s[i].state) == Some(id as usize) {
                let i = choose|i: int| 0 <= i < s.len() && letter_claim(s[i].state) == Some(id as usize);
                assert(letter_claim_fn()(s[i].state) is Some);
            }
        }
    }

    /// Wave cap: the spiders in flight never outnumber the cap of the
    /// screen; every operation on the roster keeps this.
    pub proof fn law_wave_cap(&self)
        requires
            self.wf(),
        ensures
            count_where(self.spider@, in_flight_pred()) <= self.max_spiders_in_flight <= MAX_IN_FLIGHT,
    {
    }

    /// A roster that holds no claims is consistent with grids on which no
    /// cell is claimed, as after a reset of all three.
    pub proof fn lemma_no_claims_consistent(&self, base: GridView, letters: GridView)
        requires
            self.holds_no_claims(),
            base.claimed.len() == crate::base_bricks::BRICK_QTY,
            letters.claimed.len() == crate::letter_bricks::BRICKS_QTY,
            forall|id: int| 0 <= id < base.claimed.len() ==> !#[trigger] base.claimed[id],
            forall|id: int| 0 <= id < letters.claimed.len() ==> !#[trigger] letters.claimed[id],
        ensures
            self.claims_consistent(base, letters),
    {
        let s = self.spider@;
        assert forall|i: int| 0 <= i < s.len() implies base_claim_fn()(#[trigger] s[i].state) is None && letter_claim_fn()(s[i].state) is None by {
            assert(base_claim(s[i].state) is None && letter_claim(s[i].state) is None);
        }
    }

    /// With every spider destroyed no cell of either grid is claimed.
    pub proof fn lemma_all_dead_no_claims(&self, base: GridView, letters: GridView)
        requires
            self.wf(),
            self.claims_consistent(base, letters),
            self.spiders_left == 0,
        ensures
            self.holds_no_claims(),
            forall|id: int| 0 <= id < base.claimed.len() ==> !#[trigger] base.claimed[id],
            forall|id: int| 0 <= id < letters.claimed.len() ==> !#[trigger] letters.claimed[id],
    {
        let s = self.spider@;
        assert forall|i: int| 0 <= i < s.len() implies !(#[trigger] s[i]).is_alive() by {
            if s[i].is_alive() {
                lemma_count_where_positive(s, alive_pred(), i);
            }
        }
        assert forall|id: int| 0 <= id < base.claimed.len() implies !#[trigger] base.claimed[id] by {
            if base.claimed[id] {
                let i = choose|i: int| 0 <= i < s.len() && base_claim_fn()(s[i].state) == Some(id as usize);
                assert(!s[i].is_alive());
            }
        }
        assert forall|id: int| 0 <= id < letters.claimed.len() implies !#[trigger] letters.claimed[id] by {
            if letters.claimed[id] {
                let i = choose|i: int| 0 <= i < s.len() && letter_claim_fn()(s[i].state) == Some(id as usize);
                assert(!s[i].is_alive());
            }
        }
    }

    /// A spider the roster reports as hit can be hit, so it is in flight.
    pub proof fn lemma_hit_in_flight(&self, area: ScreenObjectArea, from: int)
        requires
            self.wf(),
            0 <= from,
        ensures
            first_spider_hit(self.spider@, area, from) matches Some(k) ==> from <= k < NUMBER_OF_SPIDERS && self.spider@[k].is_in_flight(),
        decreases NUMBER_OF_SPIDERS - from,
    {
        if from < NUMBER_OF_SPIDERS && !(self.spider@[from].has_hitbox() && area.overlaps(self.spider@[from].area_spec())) {
            self.lemma_hit_in_flight(area, from + 1);
        }
    }
}

} // verus!
