use rand::rngs::StdRng;
use rand::SeedableRng;
use spider_raid::base_bricks::{BaseBricks, BRICKS_HOME_X};
use spider_raid::bombs::Bombs;
use spider_raid::common::ScreenObjectArea;
use spider_raid::game::Game;
use spider_raid::game_input::{InputEvent, Key};
use spider_raid::letter_bricks::LetterBricks;
use spider_raid::mother::Mother;
use spider_raid::spiders::{velocity_from, DirRequired, Spider, SpiderEvent, SpiderState, SpiderType, Spiders, NUMBER_OF_SPIDERS};

fn home_base() -> BaseBricks {
    let mut g = BaseBricks::new();
    g.update();
    while g.x < BRICKS_HOME_X {
        g.update();
    }
    g
}

fn seeking(kind: SpiderType, x: i32, y: i32, state: SpiderState) -> Spider {
    let mut s = Spider::new();
    s.spider_type = kind;
    s.x = x;
    s.y = y;
    s.state = state;
    s
}

#[test]
fn wandering_stays_in_band() {
    let mut rng = StdRng::seed_from_u64(7);
    let mut base = BaseBricks::new();
    let mut letters = LetterBricks::new();
    let mut bombs = Bombs::new();
    let mut s = seeking(SpiderType::Fast, 57000, 30000, SpiderState::Seek(400, 200, None));
    for _ in 0..5000 {
        s.update(&mut base, &mut letters, &mut bombs, false, &mut rng);
        assert!(matches!(s.state, SpiderState::Seek(_, _, None)));
        assert!(s.x >= 0 && s.x <= 57000, "x = {}", s.x);
        assert!(s.y >= 20000 && s.y <= 44000, "y = {}", s.y);
        bombs.update();
    }
}

#[test]
fn wandering_turns_at_right_edge() {
    let mut rng = StdRng::seed_from_u64(8);
    let mut s = seeking(SpiderType::Fast, 56900, 30000, SpiderState::Seek(400, 200, None));
    s.next_dir_change = 50;
    let (xv, yv) = s.aimless_wandering(400, 200, &mut rng);
    assert_eq!((xv, yv), (-400, 200));
    assert_eq!(s.next_dir_change, 49);
}

#[test]
fn trajectory_snap_to_target() {
    let mut rng = StdRng::seed_from_u64(9);
    let mut base = home_base();
    let mut letters = LetterBricks::new();
    let mut bombs = Bombs::new();
    let t = base.request_target(&mut rng).unwrap();
    let (ax, ay) = ((t.x - 9) * 100, (t.y - 40) * 100);
    let mut s = seeking(SpiderType::Medium, ax + 120, ay - 250, SpiderState::Seek(300, 300, Some(t)));
    let ev = s.update(&mut base, &mut letters, &mut bombs, false, &mut rng);
    assert_eq!(ev, SpiderEvent::Quiet);
    assert_eq!((s.x, s.y), (ax, ay));
    assert_eq!(s.state, SpiderState::Descend(t));
}

#[test]
fn descend_grab_ascend_carry_deposit() {
    let mut rng = StdRng::seed_from_u64(10);
    let mut base = home_base();
    let mut letters = LetterBricks::new();
    let mut bombs = Bombs::new();
    let t = base.request_target(&mut rng).unwrap();
    let mut s = seeking(SpiderType::Slow, (t.x - 9) * 100, (t.y - 40) * 100, SpiderState::Descend(t));
    let mut grabbed = false;
    for _ in 0..20 {
        if s.update(&mut base, &mut letters, &mut bombs, false, &mut rng) == SpiderEvent::Grabbed {
            grabbed = true;
            break;
        }
    }
    assert!(grabbed);
    assert_eq!(base.qty_filled, 47);
    assert!(!base.filled[t.brick_id]);
    for _ in 0..21 {
        s.update(&mut base, &mut letters, &mut bombs, false, &mut rng);
    }
    assert_eq!(s.state, SpiderState::Ascend);
    for _ in 0..200 {
        s.update(&mut base, &mut letters, &mut bombs, false, &mut rng);
        if matches!(s.state, SpiderState::Carry(..)) {
            break;
        }
    }
    assert!(matches!(s.state, SpiderState::Carry(_, -200, None)));
    let lt = letters.request_target(&mut rng).unwrap();
    s.x = (lt.x - 9) * 100 + 10;
    s.y = lt.y * 100 + 10;
    s.state = SpiderState::Carry(200, -200, Some(lt));
    let ev = s.update(&mut base, &mut letters, &mut bombs, false, &mut rng);
    assert_eq!(ev, SpiderEvent::Deposited);
    assert!(matches!(s.state, SpiderState::Release(0, _)));
    assert_eq!((s.x, s.y), ((lt.x - 9) * 100, lt.y * 100));
    assert_eq!(letters.qty_filled, 1);
}

#[test]
fn trajectory_tests() {
    let s = seeking(SpiderType::Slow, 0, 0, SpiderState::Seek(200, 200, None));
    assert!(s.trajectory_reaches_target(1000, 1000, 100, 100));
    assert!(!s.trajectory_reaches_target(1000, 1000, 100, -100));
    assert!(!s.trajectory_reaches_target(1000, 1000, 0, 200));
    assert!(!s.trajectory_reaches_target(1000, 1000, 300, 100));
    assert!(s.trajectory_reaches_target(1000, -1000, 100, -100));
    assert_eq!(s.new_trajectory_for_target(10000, 10000), Some((200, 200)));
    assert_eq!(s.new_trajectory_for_target(-10000, 10000), Some((-200, 200)));
    assert_eq!(s.new_trajectory_for_target(-10000, -10000), Some((-200, -200)));
    assert_eq!(s.new_trajectory_for_target(5000, 10000), Some((100, 200)));
    assert_eq!(s.new_trajectory_for_target(10000, 0), None);
}

#[test]
fn random_velocities_come_from_the_table() {
    let mut rng = StdRng::seed_from_u64(11);
    let s = seeking(SpiderType::Medium, 0, 0, SpiderState::Ascend);
    let mut seen = std::collections::HashSet::new();
    for _ in 0..300 {
        let (x, y) = s.random_vel(DirRequired::Down, &mut rng);
        assert!(y > 0);
        assert!([(300, 150), (300, 300), (150, 300)].contains(&(x.abs(), y)));
        seen.insert((x, y));
    }
    assert_eq!(seen.len(), 6);
}

#[test]
fn roster_layout_and_reset() {
    let mut rng = StdRng::seed_from_u64(12);
    let mut sp = Spiders::new(&mut rng);
    assert_eq!(sp.spider_type(0), 0);
    assert_eq!(sp.spider_type(10), 0);
    assert_eq!(sp.spider_type(11), 1);
    assert_eq!(sp.spider_type(35), 1);
    assert_eq!(sp.spider_type(36), 2);
    assert_eq!(sp.max_spiders_in_flight, 10);
    let s16 = sp.get(16);
    assert_eq!((s16.x, s16.y), (1100, -800));
    sp.reset(1);
    assert_eq!(sp.max_spiders_in_flight, 7);
    sp.reset(5);
    assert_eq!(sp.max_spiders_in_flight, 11);
    sp.reset(12);
    assert_eq!(sp.max_spiders_in_flight, 18);
    sp.reset(40);
    assert_eq!(sp.max_spiders_in_flight, 18);
    assert!(sp.spiders_remain());
    assert!(sp.clear());
}

#[test]
fn kill_releases_claim_and_counts() {
    let mut rng = StdRng::seed_from_u64(13);
    let mut sp = Spiders::new(&mut rng);
    sp.reset(1);
    let mut base = home_base();
    let mut letters = LetterBricks::new();
    let t = base.request_target(&mut rng).unwrap();
    sp.spider[0].state = SpiderState::Seek(200, 200, Some(t));
    sp.spider[0].x = 1000;
    sp.spider[0].y = 25050;
    sp.spiders_in_flight = 1;
    sp.next_spider_launch = 1;
    assert_eq!(sp.target_brick_id(0), Some(t.brick_id));
    assert!(!sp.carrying(0));
    let hit = sp.collision(ScreenObjectArea::new(5, 245, 10, 10));
    assert_eq!(hit, Some(0));
    let report = sp.kill(0, &mut base, &mut letters);
    assert_eq!((report.spider_type, report.x, report.y), (0, 10, 250));
    assert!(!base.targetted[t.brick_id]);
    assert_eq!(sp.spiders_in_flight, 0);
    assert_eq!(sp.spiders_left, 44);
    assert_eq!(sp.collision(ScreenObjectArea::new(5, 245, 10, 10)), None);
}

#[test]
fn launch_follows_mother_heading() {
    let mut s = Spider::new();
    s.x = 500;
    s.y = -1600;
    let mut m = Mother::new();
    assert_eq!(m.launch_dir(), Some(-1));
    assert!(s.launch(&m));
    assert_eq!(s.state, SpiderState::Swoop(0, -1));
    assert_eq!((s.x, s.y), (500 + 25000 + 300, -1600 + 10000 - 300));
    m.x = 40;
    let mut t = Spider::new();
    assert!(!t.launch(&m));
    assert_eq!(t.state, SpiderState::Nestle);
}

fn check_invariants(g: &Game) {
    let sp = &g.spiders;
    let mut in_flight = 0;
    let mut base_holders = vec![0; 48];
    let mut letter_holders = vec![0; 86];
    for i in 0..NUMBER_OF_SPIDERS {
        let s = sp.get(i);
        match s.state {
            SpiderState::Seek(_, _, Some(t)) | SpiderState::Descend(t) => base_holders[t.brick_id] += 1,
            SpiderState::Carry(_, _, Some(t)) => letter_holders[t.brick_id] += 1,
            _ => {}
        }
        if !matches!(s.state, SpiderState::Nestle | SpiderState::Dead) {
            in_flight += 1;
        }
    }
    assert!(in_flight <= sp.max_spiders_in_flight);
    assert_eq!(in_flight, sp.spiders_in_flight);
    for id in 0..48 {
        assert!(base_holders[id] <= 1);
        assert_eq!(g.base_bricks.targetted[id], base_holders[id] == 1);
        if id % 4 < 3 {
            assert!(!(g.base_bricks.targetted[id] && g.base_bricks.targetted[id + 1]));
        }
    }
    for id in 0..86 {
        assert!(letter_holders[id] <= 1);
        assert_eq!(g.letter_bricks.letter_brick[id].targetted, letter_holders[id] == 1);
        if id > 0 {
            let (a, b) = (&g.letter_bricks.letter_brick[id - 1], &g.letter_bricks.letter_brick[id]);
            if a.row == b.row && a.col + 1 == b.col {
                assert!(!(a.targetted && b.targetted));
            }
        }
    }
}

#[test]
fn whole_game_keeps_its_invariants() {
    let mut rng = StdRng::seed_from_u64(14);
    let mut g = Game::new(&mut rng);
    check_invariants(&g);
    g.update_inputs(InputEvent::KeyDown(Key::Start));
    let mut launched = false;
    let mut grabbed = false;
    for tick in 0..6000 {
        if tick % 7 == 0 {
            g.update_inputs(InputEvent::KeyDown(Key::Fire));
        }
        if tick % 300 == 0 {
            g.update_inputs(InputEvent::KeyDown(Key::Left));
        }
        if tick % 300 == 150 {
            g.update_inputs(InputEvent::KeyUp(Key::Left));
            g.update_inputs(InputEvent::KeyDown(Key::Right));
        }
        g.update(&mut rng);
        check_invariants(&g);
        launched |= g.spiders.spiders_in_flight > 0;
        grabbed |= g.base_bricks.qty_filled < 48;
    }
    assert!(launched);
    assert!(grabbed);
}

#[test]
fn demo_mode_keeps_its_invariants() {
    let mut rng = StdRng::seed_from_u64(15);
    let mut g = Game::new(&mut rng);
    for _ in 0..4000 {
        g.update(&mut rng);
        check_invariants(&g);
    }
    assert!(g.spiders.next_spider_launch > 0);
}

#[test]
fn restrict_ignores_targets() {
    let mut rng = StdRng::seed_from_u64(30);
    let mut base = home_base();
    let mut letters = LetterBricks::new();
    let mut bombs = Bombs::new();
    let mut s = seeking(SpiderType::Medium, 20000, 30000, SpiderState::Seek(300, 300, None));
    for _ in 0..300 {
        s.update(&mut base, &mut letters, &mut bombs, true, &mut rng);
        assert!(matches!(s.state, SpiderState::Seek(_, _, None)));
    }
    assert!(base.targetted.iter().all(|&t| !t));
    assert!(!bombs.in_flight());
    let mut c = seeking(SpiderType::Medium, 20000, 30000, SpiderState::Carry(300, -300, None));
    c.update(&mut base, &mut letters, &mut bombs, true, &mut rng);
    assert!(matches!(c.state, SpiderState::Carry(_, _, None)));
    assert!(letters.letter_brick.iter().all(|b| !b.targetted));
}

#[test]
fn restrict_keeps_held_target() {
    let mut rng = StdRng::seed_from_u64(31);
    let mut base = home_base();
    let mut letters = LetterBricks::new();
    let mut bombs = Bombs::new();
    let t = base.request_target(&mut rng).unwrap();
    let claimed = base.targetted.clone();
    let (ax, ay) = ((t.x - 9) * 100, (t.y - 40) * 100);
    let mut s = seeking(SpiderType::Medium, ax + 10, ay + 10, SpiderState::Seek(300, 300, Some(t)));
    s.update(&mut base, &mut letters, &mut bombs, true, &mut rng);
    assert!(matches!(s.state, SpiderState::Seek(_, _, Some(u)) if u == t));
    assert_eq!(base.targetted, claimed);
    assert!(!bombs.in_flight());
}

#[test]
fn steering_keeps_or_finds_a_velocity() {
    let mut rng = StdRng::seed_from_u64(32);
    let mut base = home_base();
    let mut letters = LetterBricks::new();
    let mut bombs = Bombs::new();
    let t = base.request_target(&mut rng).unwrap();
    let (ax, ay) = ((t.x - 9) * 100, (t.y - 40) * 100);
    let mut s = seeking(SpiderType::Slow, ax - 20000, ay - 20000, SpiderState::Seek(200, 200, Some(t)));
    s.update(&mut base, &mut letters, &mut bombs, false, &mut rng);
    assert_eq!(s.state, SpiderState::Seek(200, 200, Some(t)));
    assert_eq!((s.x, s.y), (ax - 19800, ay - 19800));
    let mut u = seeking(SpiderType::Slow, ax + 20000, ay - 20000, SpiderState::Seek(200, 200, Some(t)));
    u.update(&mut base, &mut letters, &mut bombs, false, &mut rng);
    assert_eq!(u.state, SpiderState::Seek(-200, 200, Some(t)));
    assert_eq!((u.x, u.y), (ax + 19800, ay - 19800));
}

#[test]
fn end_of_launch_arc_and_deposit() {
    let mut rng = StdRng::seed_from_u64(33);
    let mut base = BaseBricks::new();
    let mut letters = LetterBricks::new();
    let mut bombs = Bombs::new();
    let mut s = seeking(SpiderType::Fast, 12345, 23456, SpiderState::Swoop(20, 1));
    s.update(&mut base, &mut letters, &mut bombs, false, &mut rng);
    assert_eq!((s.x, s.y), (10800, 21400));
    assert!(matches!(s.state, SpiderState::Seek(_, vy, None) if vy > 0));
    let mut r = seeking(SpiderType::Fast, 12345, 23456, SpiderState::Release(20, -1));
    r.update(&mut base, &mut letters, &mut bombs, false, &mut rng);
    assert_eq!((r.x, r.y), (12345, 23456));
    assert!(matches!(r.state, SpiderState::Seek(_, vy, None) if vy > 0));
}

#[test]
fn exact_velocity_choice() {
    assert_eq!(velocity_from(SpiderType::Fast, DirRequired::Down, 0, true, false), (-400, 400));
    assert_eq!(velocity_from(SpiderType::Medium, DirRequired::Up, 0, false, false), (300, -150));
    assert_eq!(velocity_from(SpiderType::Slow, DirRequired::Any, 1, false, true), (100, -200));
    assert_eq!(velocity_from(SpiderType::Slow, DirRequired::Any, 2, true, false), (0, 200));
}

#[test]
fn kill_in_any_state_and_skip_launch() {
    let mut rng = StdRng::seed_from_u64(34);
    let mut sp = Spiders::new(&mut rng);
    sp.reset(1);
    let mut base = home_base();
    let mut letters = LetterBricks::new();
    let mut bombs = Bombs::new();
    sp.kill(0, &mut base, &mut letters);
    assert_eq!(sp.get(0).state, SpiderState::Dead);
    assert_eq!(sp.spiders_in_flight, 0);
    assert_eq!(sp.spiders_left, 44);
    sp.kill(0, &mut base, &mut letters);
    assert_eq!(sp.spiders_left, 44);
    let mother = Mother::new();
    sp.update(&mother, &mut base, &mut letters, &mut bombs, false, 200, &mut rng);
    assert_eq!(sp.next_spider_launch, 1);
    assert_eq!(sp.spiders_in_flight, 0);
    sp.update(&mother, &mut base, &mut letters, &mut bombs, false, 201, &mut rng);
    assert_eq!(sp.next_spider_launch, 2);
    assert_eq!(sp.spiders_in_flight, 1);
    assert_eq!(sp.get(1).state, SpiderState::Swoop(1, -1));
}
