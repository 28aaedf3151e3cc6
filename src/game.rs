//! The whole game, one tick at a time: collisions, scoring, the ship's
//! changeovers, screens, and every component's update. Drawing and sound
//! are left to the caller, which gets the sounds to play as cues.
use crate::animation::{Animation, AnimationSeq, Animations};
use crate::background::Background;
use crate::base_bricks::BaseBricks;
use crate::bombs::Bombs;
use crate::bonus_bomb::BonusBomb;
use crate::game_input::{GameInput, InputEvent};
use crate::letter_bricks::{LetterBricks, BRICKS_QTY};
use crate::missile::Missile;
use crate::mother::Mother;
use crate::ship::Ship;
use crate::soundfx::SoundControl;
use crate::spiders::{first_spider_hit, Spiders, INIT_IN_FLIGHT};
use rand::rngs::StdRng;
use vstd::prelude::*;

verus! {

pub const EXTRA_LIFE_SCORE: u32 = 6000;

#[derive(Clone, Copy, PartialEq, Eq, Structural, Debug)]
pub enum GameState {
    Startup,
    InProgress,
    GameOver,
}

impl GameState {
    pub open spec fn is_playing(self) -> bool {
        self is InProgress
    }

    pub fn playing(&self) -> (r: bool)
        ensures
            r == self.is_playing(),
    {
        match *self {
            GameState::Startup => false,
            GameState::GameOver => false,
            _ => true,
        }
    }

    pub fn screen_in_progress(&self) -> (r: bool)
        ensures
            r == (*self is InProgress),
    {
        match *self {
            GameState::InProgress => true,
            _ => false,
        }
    }
}

#[derive(Clone, Copy, PartialEq, Eq, Structural, Debug)]
pub enum SoundId {
    Fire,
    ShipExplosion,
    ExtraLife,
    TakeBrick,
    DepositBrick,
    SpiderExplosion,
    BonusBomb,
    BonusBombHit,
    RemoveBrick,
}

/// What the caller should do with the sound device after a tick.
#[derive(Clone, Copy, PartialEq, Eq, Structural, Debug)]
pub enum Cue {
    Play(SoundId),
    SetVolume(i32),
}

/// Points for destroying a spider of kind `kind`.
pub open spec fn spider_score_spec(kind: int) -> u32 {
    if kind == 0 {
        40
    } else if kind == 1 {
        80
    } else {
        200
    }
}

pub fn spider_score(kind: usize) -> (r: u32)
    ensures
        r == spider_score_spec(kind as int),
{
    if kind == 0 {
        40
    } else if kind == 1 {
        80
    } else {
        200
    }
}

pub struct Game {
    pub game_state: GameState,
    pub ship: Ship,
    pub missile: Missile,
    pub base_bricks: BaseBricks,
    pub letter_bricks: LetterBricks,
    pub mother: Mother,
    pub spiders: Spiders,
    pub bombs: Bombs,
    pub bonus_bomb: BonusBomb,
    pub game_input: GameInput,
    pub frame_count: u32,
    pub score: u32,
    pub screen: u32,
    pub sound_control: SoundControl,
    pub paused: bool,
    pub animations: Animations,
    pub background: Background,
}

impl Game {
    pub open spec fn wf(&self) -> bool {
        &&& self.ship.wf()
        &&& self.missile.wf()
        &&& self.base_bricks.wf()
        &&& self.letter_bricks.wf()
        &&& self.mother.wf()
        &&& self.spiders.wf()
        &&& self.bombs.wf()
        &&& self.bonus_bomb.wf()
        &&& self.sound_control.wf()
        &&& self.animations.wf()
        &&& self.background.wf()
        &&& self.spiders.claims_consistent(self.base_bricks@, self.letter_bricks@)
    }

    pub fn new(rng: &mut StdRng) -> (r: Game)
        ensures
            r.wf(),
            r.game_state == GameState::Startup,
            r.score == 0,
            r.frame_count == 0,
            !r.paused,
    {
        let base_bricks = BaseBricks::new();
        let letter_bricks = LetterBricks::new();
        let spiders = Spiders::new(rng);
        proof {
            spiders.lemma_no_claims_consistent(base_bricks@, letter_bricks@);
        }
        Game {
            game_state: GameState::Startup,
            ship: Ship::new(),
            missile: Missile::new(),
            base_bricks,
            letter_bricks,
            mother: Mother::new(),
            spiders,
            bombs: Bombs::new(),
            bonus_bomb: BonusBomb::new(),
            game_input: GameInput::new(),
            frame_count: 0,
            score: 0,
            screen: 0,
            sound_control: SoundControl::new(),
            paused: false,
            animations: Animations::new(),
            background: Background::new(),
        }
    }

    pub fn update_inputs(&mut self, event: InputEvent)
        requires
            old(self).wf(),
        ensures
            final(self).wf(),
            *final(self) == (Game { game_input: old(self).game_input.after(event), ..*old(self) }),
    {
        self.game_input.update_inputs(event);
    }

    fn register(&mut self, seq: AnimationSeq)
        requires
            old(self).wf(),
        ensures
            final(self).wf(),
            *final(self) == (Game { animations: final(self).animations, ..*old(self) }),
    {
        self.animations.register(Animation::new(seq));
    }

    /// Adds points, saturating; crossing a multiple of the extra-life score
    /// earns a life.
    fn increase_score(&mut self, inc: u32, cues: &mut Vec<Cue>)
        requires
            old(self).wf(),
        ensures
            final(self).wf(),
            final(self).score == if old(self).score <= u32::MAX - inc { old(self).score + inc } else { u32::MAX as int },
            *final(self) == (Game { score: final(self).score, ship: final(self).ship, animations: final(self).animations, ..*old(self) }),
    {
        let q = self.score / EXTRA_LIFE_SCORE;
        self.score = if self.score <= u32::MAX - inc { self.score + inc } else { u32::MAX };
        if self.score / EXTRA_LIFE_SCORE > q {
            self.ship.award_extra_life();
            self.register(AnimationSeq::ExtraLife);
            cues.push(Cue::Play(SoundId::ExtraLife));
        }
    }

    fn screen_start(&mut self)
        requires
            old(self).wf(),
        ensures
            final(self).wf(),
            *final(self) == (Game { animations: final(self).animations, ..*old(self) }),
    {
        let screen_number = self.screen;
        self.register(AnimationSeq::ScreenStart(screen_number));
    }

    /// Destroys spider `spider_id`, freeing its claim, with its explosion.
    fn destroy_spider(&mut self, spider_id: usize, cues: &mut Vec<Cue>)
        requires
            old(self).wf(),
            spider_id < crate::spiders::NUMBER_OF_SPIDERS,
            old(self).spiders.spider@[spider_id as int].is_in_flight(),
        ensures
            final(self).wf(),
            final(self).game_state == old(self).game_state,
            final(self).paused == old(self).paused,
            final(self).spiders.spider@[spider_id as int].state is Dead,
            final(self).missile == old(self).missile,
            crate::spiders::base_claim(old(self).spiders.spider@[spider_id as int].state) matches Some(b)
                ==> !final(self).base_bricks@.claimed[b as int],
            crate::spiders::letter_claim(old(self).spiders.spider@[spider_id as int].state) matches Some(b)
                ==> !final(self).letter_bricks@.claimed[b as int],
            final(self).frame_count == old(self).frame_count,
            final(self).letter_bricks.qty_filled == old(self).letter_bricks.qty_filled,
            final(self).game_input == old(self).game_input,
    {
        proof {
            let st = self.spiders.spider@[spider_id as int].state;
            assert(crate::spiders::base_claim_fn()(st) == crate::spiders::base_claim(st));
            assert(crate::spiders::letter_claim_fn()(st) == crate::spiders::letter_claim(st));
        }
        let report = self.spiders.kill(spider_id, &mut self.base_bricks, &mut self.letter_bricks);
        self.register(AnimationSeq::SpiderExplosion(report.x, report.y));
        if self.spiders.sound_on {
            cues.push(Cue::Play(SoundId::SpiderExplosion));
        }
    }

    fn destroy_ship(&mut self, cues: &mut Vec<Cue>)
        requires
            old(self).wf(),
        ensures
            final(self).wf(),
            final(self).game_state == old(self).game_state,
            final(self).paused == old(self).paused,
            final(self).frame_count == old(self).frame_count,
            final(self).letter_bricks.qty_filled == old(self).letter_bricks.qty_filled,
            final(self).game_input == old(self).game_input,
    {
        if let Some((x, y)) = self.ship.kill() {
            self.register(AnimationSeq::ShipExplosion(x, y));
            cues.push(Cue::Play(SoundId::ShipExplosion));
        }
    }

    /// A missile that meets a spider destroys it and scores its points,
    /// twice over for a spider carrying a piece.
    fn missile_collision(&mut self, cues: &mut Vec<Cue>)
        requires
            old(self).wf(),
        ensures
            final(self).wf(),
            final(self).game_state == old(self).game_state,
            final(self).paused == old(self).paused,
            ({
                let hit = first_spider_hit(old(self).spiders.spider@, old(self).missile.area_spec(), 0);
                &&& old(self).missile.in_flight && hit is Some ==> {
                    let k = hit.unwrap();
                    &&& final(self).spiders.spider@[k].state is Dead
                    &&& !final(self).missile.in_flight
                    &&& crate::spiders::base_claim(old(self).spiders.spider@[k].state) matches Some(b)
                        ==> !final(self).base_bricks@.claimed[b as int]
                    &&& crate::spiders::letter_claim(old(self).spiders.spider@[k].state) matches Some(b)
                        ==> !final(self).letter_bricks@.claimed[b as int]
                }
                &&& !old(self).missile.in_flight || hit is None ==> final(self).spiders == old(self).spiders
                    && final(self).missile == old(self).missile
            }),
            final(self).frame_count == old(self).frame_count,
            final(self).letter_bricks.qty_filled == old(self).letter_bricks.qty_filled,
            final(self).game_input == old(self).game_input,
    {
        if self.missile.flying() {
            let area = self.missile.area();
            let hit = self.spiders.collision(area);
            proof {
                self.spiders.lemma_hit_in_flight(area, 0);
            }
            if let Some(spider_id) = hit {
                self.missile.terminate_flight();
                let points = spider_score(self.spiders.spider_type(spider_id));
                let carrying = self.spiders.carrying(spider_id);
                self.increase_score(points, cues);
                if carrying {
                    self.increase_score(points, cues);
                }
                self.destroy_spider(spider_id, cues);
            }
        }
    }

    fn bomb_collision(&mut self, cues: &mut Vec<Cue>)
        requires
            old(self).wf(),
        ensures
            final(self).wf(),
            final(self).game_state == old(self).game_state,
            final(self).paused == old(self).paused,
            final(self).frame_count == old(self).frame_count,
            final(self).letter_bricks.qty_filled == old(self).letter_bricks.qty_filled,
            final(self).game_input == old(self).game_input,
    {
        if self.ship.alive() {
            if self.bombs.collision(self.ship.area()) {
                self.destroy_ship(cues);
            }
        }
    }

    fn spider_collision(&mut self, cues: &mut Vec<Cue>)
        requires
            old(self).wf(),
        ensures
            final(self).wf(),
            final(self).game_state == old(self).game_state,
            final(self).paused == old(self).paused,
            final(self).frame_count == old(self).frame_count,
            final(self).letter_bricks.qty_filled == old(self).letter_bricks.qty_filled,
            final(self).game_input == old(self).game_input,
    {
        if self.ship.alive() {
            let area = self.ship.area();
            let hit = self.spiders.collision(area);
            proof {
                self.spiders.lemma_hit_in_flight(area, 0);
            }
            if let Some(spider_id) = hit {
                self.destroy_spider(spider_id, cues);
                self.destroy_ship(cues);
            }
        }
    }

    fn bonus_bomb_collision(&mut self, cues: &mut Vec<Cue>)
        requires
            old(self).wf(),
        ensures
            final(self).wf(),
            final(self).game_state == old(self).game_state,
            final(self).paused == old(self).paused,
            final(self).frame_count == old(self).frame_count,
            final(self).letter_bricks.qty_filled == old(self).letter_bricks.qty_filled,
            final(self).game_input == old(self).game_input,
    {
        if self.missile.flying() && self.bonus_bomb.collision(self.missile.area()) {
            self.missile.terminate_flight();
            let points = self.bonus_bomb.score();
            self.increase_score(points, cues);
            let (x, y, kind) = self.bonus_bomb.achieve_bonus(&mut self.letter_bricks);
            self.register(AnimationSeq::BonusBombHit(x, y, kind));
            cues.push(Cue::Play(SoundId::BonusBombHit));
        }
    }

    fn new_game(&mut self, rng: &mut StdRng)
        requires
            old(self).wf(),
        ensures
            final(self).wf(),
            final(self).game_state == GameState::InProgress,
            final(self).score == 0,
            final(self).screen == 1,
            final(self).frame_count == 0,
            final(self).paused == old(self).paused,
            final(self).spiders.max_spiders_in_flight == INIT_IN_FLIGHT,
            final(self).base_bricks.qty_filled == crate::base_bricks::BRICK_QTY,
            final(self).letter_bricks.qty_filled == 0,
    {
        self.game_state = GameState::InProgress;
        self.mother.full_reset(rng);
        self.screen = 1;
        self.spiders.reset(self.screen);
        self.ship.reset();
        self.missile.reset();
        self.base_bricks.reset();
        self.base_bricks.update();
        self.letter_bricks.reset();
        self.bombs.reset();
        self.bonus_bomb.reset();
        self.score = 0;
        self.frame_count = 0;
        self.game_input.reset();
        self.spiders.turn_sound_on();
        self.bonus_bomb.turn_sound_on();
        self.ship.proceed_with_changeover();
        proof {
            self.spiders.lemma_no_claims_consistent(self.base_bricks@, self.letter_bricks@);
        }
        self.screen_start();
    }

    fn resolve_collisions(&mut self, cues: &mut Vec<Cue>)
        requires
            old(self).wf(),
        ensures
            final(self).wf(),
            final(self).game_state == old(self).game_state,
            final(self).paused == old(self).paused,
            final(self).frame_count == old(self).frame_count,
            final(self).letter_bricks.qty_filled == old(self).letter_bricks.qty_filled,
            final(self).game_input == old(self).game_input,
    {
        self.bonus_bomb_collision(cues);
        self.missile_collision(cues);
        self.bomb_collision(cues);
        self.spider_collision(cues);
    }

    /// A destroyed ship is replaced once its delay is over and the screen
    /// is quiet: no spider below the band, no bomb and no missile in flight.
    fn try_changeover(&mut self)
        requires
            old(self).wf(),
        ensures
            final(self).wf(),
            *final(self) == (Game { ship: final(self).ship, ..*old(self) }),
    {
        let quiet = self.spiders.clear() && !self.bombs.in_flight() && !self.missile.flying();
        if self.ship.waiting_for_changeover() && quiet && self.ship.enough_delay_for_changeover() {
            self.ship.proceed_with_changeover();
        }
    }

    /// A complete pattern, or no ship left, ends the game.
    fn check_end(&mut self)
        requires
            old(self).wf(),
        ensures
            final(self).wf(),
            final(self).paused == old(self).paused,
            final(self).frame_count == old(self).frame_count,
            final(self).game_input == old(self).game_input,
            final(self).game_state == old(self).game_state || final(self).game_state == GameState::GameOver,
            old(self).letter_bricks.qty_filled == BRICKS_QTY ==> final(self).game_state == GameState::GameOver,
    {
        let complete = self.letter_bricks.complete();
        if complete {
            self.letter_bricks.initiate_expansion();
        }
        if complete || !self.ship.life_left() {
            self.game_state = GameState::GameOver;
            self.spiders.turn_sound_off();
            self.bonus_bomb.turn_sound_off();
        }
    }

    /// The missile and the ship move, and the ship answers the controls.
    fn move_ship(&mut self, cues: &mut Vec<Cue>)
        requires
            old(self).wf(),
        ensures
            final(self).wf(),
            *final(self) == (Game { ship: final(self).ship, missile: final(self).missile, game_input: final(self).game_input, ..*old(self) }),
            final(self).game_input.start_pressed == old(self).game_input.start_pressed,
    {
        self.missile.update();
        self.ship.update();
        if self.game_input.left_pressed {
            self.ship.move_left();
        } else if self.game_input.right_pressed {
            self.ship.move_right();
        }
        if self.game_input.fire_pressed {
            if self.ship.launch_missile(&mut self.missile) {
                cues.push(Cue::Play(SoundId::Fire));
            }
            self.game_input.acknowledge_fire();
        }
    }

    /// The player's side of a tick: collisions, the changeover, the end of
    /// the game, and the ship's own moves.
    fn update_play(&mut self, cues: &mut Vec<Cue>)
        requires
            old(self).wf(),
        ensures
            final(self).wf(),
            final(self).paused == old(self).paused,
            final(self).frame_count == old(self).frame_count,
            final(self).game_state == old(self).game_state || final(self).game_state == GameState::GameOver,
            old(self).letter_bricks.qty_filled == BRICKS_QTY ==> final(self).game_state == GameState::GameOver,
            final(self).game_input.start_pressed == old(self).game_input.start_pressed,
    {
        self.resolve_collisions(cues);
        self.try_changeover();
        self.check_end();
        self.move_ship(cues);
    }

    /// The world's side of a tick: the grids, the bombs, the mother ship and
    /// the spiders.
    fn update_world(&mut self, cues: &mut Vec<Cue>, rng: &mut StdRng)
        requires
            old(self).wf(),
        ensures
            final(self).wf(),
            final(self).game_state == old(self).game_state,
            final(self).paused == old(self).paused,
            final(self).frame_count == old(self).frame_count,
            final(self).game_input == old(self).game_input,
    {
        let restrict = (self.ship.in_changeover() && self.game_state.playing()) || self.ship.protected();
        proof {
            if self.base_bricks.qty_filled == 0 {
                crate::grid::lemma_count_zero(self.base_bricks@.filled);
                assert(self.base_bricks@.claimed =~= Seq::new(crate::base_bricks::BRICK_QTY as nat, |i: int| false));
            }
        }
        self.base_bricks.update();
        let ghost letters_before = self.letter_bricks@;
        if self.letter_bricks.update(self.frame_count) {
            cues.push(Cue::Play(SoundId::RemoveBrick));
        }
        proof {
            assert(self.letter_bricks@.claimed =~= letters_before.claimed);
        }
        if self.bonus_bomb.update() {
            cues.push(Cue::Play(SoundId::BonusBomb));
        }
        self.mother.update(&mut self.bonus_bomb, restrict, self.frame_count, rng);
        self.bombs.update();
        let (taken, deposited) = self.spiders.update(
            &self.mother,
            &mut self.base_bricks,
            &mut self.letter_bricks,
            &mut self.bombs,
            restrict,
            self.frame_count,
            rng,
        );
        if self.spiders.sound_on {
            if taken > 0 {
                cues.push(Cue::Play(SoundId::TakeBrick));
            }
            if deposited > 0 {
                cues.push(Cue::Play(SoundId::DepositBrick));
            }
        }
    }

    /// Every spider destroyed and no bomb falling: on to the next screen.
    fn next_screen(&mut self, rng: &mut StdRng)
        requires
            old(self).wf(),
            old(self).spiders.spiders_left == 0,
        ensures
            final(self).wf(),
            final(self).game_state == old(self).game_state,
            final(self).paused == old(self).paused,
            final(self).frame_count == 0,
            final(self).game_input == old(self).game_input,
    {
        proof {
            self.spiders.lemma_all_dead_no_claims(self.base_bricks@, self.letter_bricks@);
        }
        self.screen = if self.screen < u32::MAX { self.screen + 1 } else { u32::MAX };
        self.mother.reset(rng);
        self.bonus_bomb.reset();
        self.spiders.reset(self.screen);
        self.frame_count = 0;
        proof {
            self.spiders.lemma_no_claims_consistent(self.base_bricks@, self.letter_bricks@);
        }
        self.screen_start();
    }

    fn change_volume(&mut self, louder: bool, cues: &mut Vec<Cue>)
        requires
            old(self).wf(),
        ensures
            final(self).wf(),
            *final(self) == (Game {
                game_input: final(self).game_input,
                sound_control: final(self).sound_control,
                animations: final(self).animations,
                ..*old(self)
            }),
            final(self).game_input.start_pressed == old(self).game_input.start_pressed,
            final(self).game_input.pause_pressed == old(self).game_input.pause_pressed,
    {
        self.game_input.acknowledge_volume_change();
        let volume = if louder {
            self.sound_control.increase_volume()
        } else {
            self.sound_control.decrease_volume()
        };
        cues.push(Cue::SetVolume(self.sound_control.channel_volume()));
        self.register(AnimationSeq::VolumeChange(volume));
    }

    /// The game is paused after this tick's controls are read: a press of
    /// pause toggles it while a game is in play.
    pub open spec fn paused_after(&self) -> bool {
        if self.game_input.pause_pressed && self.game_state.is_playing() {
            !self.paused
        } else {
            self.paused
        }
    }

    /// One tick of the game. Returns what the sound device should do.
    /// Paused, only the controls and the volume are served. Otherwise the
    /// play and the world advance one frame, a pattern that is complete ends
    /// the game, and a press of start outside a game begins a new one.
    pub fn update(&mut self, rng: &mut StdRng) -> (cues: Vec<Cue>)
        requires
            old(self).wf(),
        ensures
            final(self).wf(),
            final(self).paused == old(self).paused_after(),
            !old(self).paused_after() ==> final(self).frame_count == 0 || final(self).frame_count == if old(self).frame_count
                < u32::MAX {
                old(self).frame_count + 1
            } else {
                old(self).frame_count as int
            },
            old(self).paused_after() ==> {
                &&& final(self).frame_count == old(self).frame_count
                &&& final(self).game_state == old(self).game_state
                &&& final(self).spiders == old(self).spiders
                &&& final(self).base_bricks == old(self).base_bricks
                &&& final(self).letter_bricks == old(self).letter_bricks
                &&& final(self).ship == old(self).ship
                &&& final(self).score == old(self).score
            },
            !old(self).paused_after() && !old(self).game_state.is_playing() && old(self).game_input.start_pressed ==> {
                &&& final(self).game_state == GameState::InProgress
                &&& final(self).score == 0
                &&& final(self).screen == 1
            },
            !old(self).paused_after() && old(self).game_state.is_playing() && old(self).letter_bricks.qty_filled
                == BRICKS_QTY && !old(self).game_input.start_pressed ==> final(self).game_state == GameState::GameOver,
    {
        let mut cues: Vec<Cue> = Vec::new();
        if self.game_input.pause_pressed {
            self.game_input.acknowledge_pause();
            if self.game_state.playing() {
                self.paused = !self.paused;
            }
        }
        if self.game_input.dec_vol_pressed {
            self.change_volume(false, &mut cues);
        }
        if self.game_input.inc_vol_pressed {
            self.change_volume(true, &mut cues);
        }
        if !self.paused {
            self.frame_count = if self.frame_count < u32::MAX { self.frame_count + 1 } else { u32::MAX };
            if self.game_state.playing() {
                self.update_play(&mut cues);
            }
            if self.game_state.screen_in_progress() || !self.game_state.playing() {
                self.update_world(&mut cues, rng);
            }
            if self.game_state.screen_in_progress() && !self.spiders.spiders_remain() && !self.bombs.in_flight() {
                self.next_screen(rng);
            }
            if !self.game_state.playing() && self.game_input.start_pressed {
                self.new_game(rng);
            }
            self.animations.update();
            self.background.update();
        }
        cues
    }
}

} // verus!
