use rand::rngs::StdRng;
use rand::SeedableRng;
use spider_raid::animation::{Animation, AnimationSeq, Animations};
use spider_raid::background::Background;
use spider_raid::bombs::Bombs;
use spider_raid::bonus_bomb::{BombType, BonusBomb, BonusBombState};
use spider_raid::common::ScreenObjectArea;
use spider_raid::game::{spider_score, Cue, Game, GameState};
use spider_raid::game_input::{GameInput, InputEvent, Key};
use spider_raid::letter_bricks::LetterBricks;
use spider_raid::missile::Missile;
use spider_raid::mother::Mother;
use spider_raid::ship::{Ship, ShipState};
use spider_raid::soundfx::SoundControl;

#[test]
fn rectangles_overlap() {
    let a = ScreenObjectArea::new(0, 0, 10, 10);
    assert!(a.collides(ScreenObjectArea::new(5, 5, 10, 10)));
    assert!(!a.collides(ScreenObjectArea::new(10, 0, 10, 10)));
    assert!(!a.collides(ScreenObjectArea::new(0, 10, 10, 10)));
    assert!(a.collides(ScreenObjectArea::new(-5, -5, 6, 6)));
    assert_eq!((a.br_x, a.br_y), (10, 10));
}

#[test]
fn bomb_pool_release_and_saturation() {
    let mut b = Bombs::new();
    assert!(!b.in_flight());
    for i in 0..4 {
        assert!(b.release(100 + i, 200));
    }
    assert!(!b.release(1, 1));
    assert!(b.in_flight());
    assert_eq!((b.bomb[0].x, b.bomb[0].y), (99, 200));
    assert!(b.collision(ScreenObjectArea::new(100, 201, 5, 5)));
    assert!(!b.bomb[0].in_flight);
    assert!(b.bomb[1].in_flight);
    assert!(b.release(7, 8));
    assert_eq!((b.bomb[0].x, b.bomb[0].y), (6, 8));
}

#[test]
fn bombs_fall_and_retire() {
    let mut b = Bombs::new();
    b.release(50, 690);
    b.update();
    assert_eq!(b.bomb[0].y, 694);
    assert!(b.bomb[0].in_flight);
    b.update();
    b.update();
    assert_eq!(b.bomb[0].y, 702);
    assert!(!b.bomb[0].in_flight);
    b.release(50, 10);
    b.reset();
    assert!(!b.in_flight());
}

#[test]
fn animation_durations_and_list() {
    assert_eq!(Animation::new(AnimationSeq::ShipExplosion(1, 2)).frames_left, 32);
    assert_eq!(Animation::new(AnimationSeq::SpiderExplosion(1, 2)).frames_left, 20);
    assert_eq!(Animation::new(AnimationSeq::ExtraLife).frames_left, 50);
    assert!(!Animation::new(AnimationSeq::ScreenStart(1)).finished());
    let mut list = Animations::new();
    list.register(Animation::new(AnimationSeq::VolumeChange(3)));
    list.register(Animation::new(AnimationSeq::SpiderExplosion(0, 0)));
    list.register(Animation::new(AnimationSeq::VolumeChange(4)));
    assert_eq!(list.animation.len(), 2);
    assert_eq!(list.animation[1].animation_seq, AnimationSeq::VolumeChange(4));
    for _ in 0..20 {
        list.update();
    }
    assert_eq!(list.animation.len(), 1);
    for _ in 0..80 {
        list.update();
    }
    assert!(list.animation.is_empty());
}

#[test]
fn input_flags() {
    let mut i = GameInput::new();
    i.update_inputs(InputEvent::KeyDown(Key::Fire));
    i.update_inputs(InputEvent::KeyUp(Key::Fire));
    assert!(i.fire_pressed);
    i.acknowledge_fire();
    assert!(!i.fire_pressed);
    i.update_inputs(InputEvent::KeyDown(Key::Left));
    assert!(i.left_pressed);
    i.update_inputs(InputEvent::KeyUp(Key::Left));
    assert!(!i.left_pressed);
    i.update_inputs(InputEvent::KeyDown(Key::VolumeUp));
    i.update_inputs(InputEvent::KeyDown(Key::VolumeDown));
    i.acknowledge_volume_change();
    assert!(!i.inc_vol_pressed && !i.dec_vol_pressed);
    i.update_inputs(InputEvent::KeyDown(Key::Pause));
    i.acknowledge_pause();
    assert!(!i.pause_pressed);
    i.update_inputs(InputEvent::KeyDown(Key::Start));
    i.reset();
    assert!(!i.start_pressed);
}

#[test]
fn volume_steps() {
    let mut s = SoundControl::new();
    assert_eq!(s.volume, 5);
    for _ in 0..8 {
        s.increase_volume();
    }
    assert_eq!(s.volume, 10);
    assert_eq!(s.channel_volume(), 120);
    for _ in 0..12 {
        s.decrease_volume();
    }
    assert_eq!(s.decrease_volume(), 0);
}

#[test]
fn background_scrolls_and_wraps() {
    let mut b = Background::new();
    for _ in 0..699 {
        b.update();
    }
    assert_eq!(b.y, 699);
    b.update();
    assert_eq!(b.y, 0);
    assert_eq!(b.anim_frame(), (700 / 10) % 6);
}

#[test]
fn mother_patrols_and_turns() {
    let mut rng = StdRng::seed_from_u64(20);
    let mut m = Mother::new();
    let mut bb = BonusBomb::new();
    assert_eq!(m.location(), (250, 100));
    m.bonus_bomb_frame = 5000;
    for f in 0..124 {
        m.update(&mut bb, false, f, &mut rng);
    }
    assert_eq!(m.x, 498);
    assert_eq!(m.vel, 2);
    m.update(&mut bb, false, 124, &mut rng);
    assert_eq!(m.x, 500);
    assert_eq!(m.vel, -2);
    assert_eq!(m.launch_dir(), None);
    for f in 125..150 {
        m.update(&mut bb, false, f, &mut rng);
    }
    assert_eq!(m.x, 450);
    assert_eq!(m.launch_dir(), None);
    m.update(&mut bb, false, 150, &mut rng);
    assert_eq!(m.launch_dir(), Some(1));
    m.reset(&mut rng);
    assert!(m.bonus_bomb_frame >= 1200 && m.bonus_bomb_frame < 2400);
}

#[test]
fn mother_drops_bonus_bomb() {
    let mut rng = StdRng::seed_from_u64(21);
    let mut m = Mother::new();
    let mut bb = BonusBomb::new();
    m.bonus_bomb_frame = 10;
    m.update(&mut bb, true, 10, &mut rng);
    assert_eq!(bb.bomb_state, BonusBombState::Dormant);
    assert!(m.bonus_bomb_frame >= 110 && m.bonus_bomb_frame < 310);
    let f = m.bonus_bomb_frame;
    m.update(&mut bb, false, f, &mut rng);
    assert!(bb.in_flight());
    assert_eq!(bb.x, m.x + 50 - 25);
    assert_eq!(bb.y, 120);
}

#[test]
fn bonus_bomb_hit_queues_removal() {
    let mut rng = StdRng::seed_from_u64(22);
    let mut bb = BonusBomb::new();
    bb.launch(300, &mut rng);
    bb.bomb_type = BombType::Bonus10;
    assert_eq!(bb.score(), 200);
    assert!(bb.collision(ScreenObjectArea::new(290, 125, 3, 15)));
    assert!(!bb.collision(ScreenObjectArea::new(276, 125, 3, 15)));
    let mut letters = LetterBricks::new();
    for id in 0..20 {
        letters.letter_brick[id].targetted = true;
        letters.fill_target(id);
    }
    let (x, y, kind) = bb.achieve_bonus(&mut letters);
    assert_eq!((x, y, kind), (300, 131, 0));
    assert!(!bb.in_flight());
    assert_eq!(letters.to_remove, (10..20).collect::<Vec<usize>>());
}

#[test]
fn bonus_bomb_falls_and_chimes() {
    let mut rng = StdRng::seed_from_u64(23);
    let mut bb = BonusBomb::new();
    bb.turn_sound_on();
    bb.launch(300, &mut rng);
    assert!(bb.update());
    assert!(!bb.update());
    for _ in 0..58 {
        bb.update();
    }
    assert_eq!(bb.y, 240);
    assert!(bb.update());
    for _ in 0..300 {
        bb.update();
    }
    assert_eq!(bb.bomb_state, BonusBombState::Dormant);
}

#[test]
fn missile_flight() {
    let mut m = Missile::new();
    assert!(m.launch(300, 565));
    assert!(!m.launch(10, 10));
    assert_eq!((m.x, m.y), (299, 550));
    m.update();
    assert_eq!(m.y, 538);
    for _ in 0..46 {
        m.update();
    }
    assert_eq!(m.y, -2);
    assert!(!m.flying());
}

#[test]
fn ship_life_cycle() {
    let mut s = Ship::new();
    assert_eq!(s.x, 285);
    s.move_left();
    assert_eq!(s.x, 280);
    for _ in 0..100 {
        s.move_right();
    }
    assert_eq!(s.x, 570);
    assert_eq!(s.kill(), Some((570, 565)));
    assert_eq!(s.state, ShipState::WaitForChangeOver(90));
    assert_eq!(s.kill(), None);
    assert!(s.in_changeover());
    for _ in 0..90 {
        s.update();
    }
    assert!(s.enough_delay_for_changeover());
    s.proceed_with_changeover();
    assert_eq!(s.lives, 3);
    for _ in 0..21 {
        s.update();
    }
    assert_eq!(s.state, ShipState::Alive(60));
    assert!(s.protected());
    let mut m = Missile::new();
    assert!(s.launch_missile(&mut m));
    assert_eq!(m.x, 285 + 15 - 1);
    s.lives = 0;
    s.kill();
    assert!(!s.life_left());
    assert_eq!(Ship::life_x(2), 583 - 50);
}

#[test]
fn spider_scores() {
    assert_eq!(spider_score(0), 40);
    assert_eq!(spider_score(1), 80);
    assert_eq!(spider_score(2), 200);
}

#[test]
fn game_starts_and_pauses() {
    let mut rng = StdRng::seed_from_u64(24);
    let mut g = Game::new(&mut rng);
    assert_eq!(g.game_state, GameState::Startup);
    g.update_inputs(InputEvent::KeyDown(Key::Start));
    g.update(&mut rng);
    assert_eq!(g.game_state, GameState::InProgress);
    assert_eq!(g.screen, 1);
    assert_eq!(g.spiders.max_spiders_in_flight, 7);
    assert_eq!(g.base_bricks.qty_filled, 48);
    g.update_inputs(InputEvent::KeyDown(Key::Pause));
    g.update(&mut rng);
    assert!(g.paused);
    let frame = g.frame_count;
    g.update(&mut rng);
    assert_eq!(g.frame_count, frame);
    g.update_inputs(InputEvent::KeyDown(Key::VolumeUp));
    let cues = g.update(&mut rng);
    assert!(cues.contains(&Cue::SetVolume(72)));
}
