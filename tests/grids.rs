use rand::rngs::StdRng;
use rand::SeedableRng;
use spider_raid::base_bricks::{BaseBricks, BRICKS_HOME_X, BRICK_QTY};
use spider_raid::letter_bricks::{LetterBricks, BRICKS_QTY};

fn home_base() -> BaseBricks {
    let mut g = BaseBricks::new();
    g.update();
    while g.x < BRICKS_HOME_X {
        g.update();
    }
    g
}

fn claimed_count_base(g: &BaseBricks) -> usize {
    g.targetted.iter().filter(|&&t| t).count()
}

#[test]
fn full_source_grid_take_one() {
    let mut rng = StdRng::seed_from_u64(1);
    let mut g = home_base();
    assert_eq!(g.qty_filled, 48);
    assert!(g.filled.iter().all(|&f| f));
    let t = g.request_target(&mut rng).expect("a full grid offers a target");
    assert!(g.targetted[t.brick_id]);
    g.take_target(t.brick_id);
    assert_eq!(g.qty_filled, 47);
    assert!(!g.filled[t.brick_id]);
    assert!(!g.targetted[t.brick_id]);
}

#[test]
fn refill_slides_in_from_the_left() {
    let mut g = BaseBricks::new();
    assert_eq!(g.qty_filled, 0);
    g.update();
    assert_eq!(g.qty_filled, 48);
    assert_eq!(g.x, -600);
    g.update();
    assert_eq!(g.x, -598);
    let mut rng = StdRng::seed_from_u64(2);
    assert!(g.request_target(&mut rng).is_none());
    let g = home_base();
    assert_eq!(g.x, 60);
}

#[test]
fn first_candidates_are_the_top_rows() {
    let g = home_base();
    assert_eq!(g.target_candidates(), vec![0, 1, 2, 3, 16, 17, 18, 19, 32, 33, 34, 35]);
}

#[test]
fn adjacency_rejection_in_a_row() {
    let mut g = home_base();
    g.targetted[0] = true;
    assert_eq!(g.target_candidates(), vec![2, 3, 16, 17, 18, 19, 32, 33, 34, 35]);
    for seed in 0..200 {
        let mut rng = StdRng::seed_from_u64(seed);
        let mut h = home_base();
        h.targetted[0] = true;
        let t = h.request_target(&mut rng).unwrap();
        assert_ne!(t.brick_id, 1);
        assert_ne!(t.brick_id, 0);
    }
}

#[test]
fn claim_candidate_positions() {
    let mut g = home_base();
    let t = g.claim_candidate(5).unwrap();
    assert_eq!(t.brick_id, 17);
    assert_eq!(t.x, 60 + 210 + 15);
    assert_eq!(t.y, 630);
    assert!(g.claim_candidate(11).is_none());
    assert_eq!(claimed_count_base(&g), 1);
}

#[test]
fn exposed_row_moves_down() {
    let mut g = home_base();
    for id in 0..4 {
        g.filled[id] = false;
    }
    g.qty_filled -= 4;
    let c = g.target_candidates();
    assert_eq!(&c[0..4], &[4, 5, 6, 7]);
}

#[test]
fn request_then_untarget_round_trip_base() {
    for seed in 0..20 {
        let mut rng = StdRng::seed_from_u64(seed);
        let mut g = home_base();
        g.targetted[33] = true;
        let filled = g.filled.clone();
        let claimed = g.targetted.clone();
        let qty = g.qty_filled;
        let t = g.request_target(&mut rng).unwrap();
        g.untarget(t.brick_id);
        assert_eq!(g.filled, filled);
        assert_eq!(g.targetted, claimed);
        assert_eq!(g.qty_filled, qty);
    }
}

#[test]
fn request_then_untarget_round_trip_letters() {
    for seed in 0..20 {
        let mut rng = StdRng::seed_from_u64(seed);
        let mut g = LetterBricks::new();
        let before = g.letter_brick.clone();
        let qty = g.qty_filled;
        let t = g.request_target(&mut rng).unwrap();
        g.untarget(t.brick_id);
        assert_eq!(g.letter_brick, before);
        assert_eq!(g.qty_filled, qty);
    }
}

#[test]
fn conservation_take_and_fill() {
    let mut rng = StdRng::seed_from_u64(3);
    let mut base = home_base();
    let mut letters = LetterBricks::new();
    for _ in 0..10 {
        let b = base.request_target(&mut rng).unwrap();
        let before = base.qty_filled;
        base.take_target(b.brick_id);
        assert_eq!(base.qty_filled, before - 1);
        let l = letters.request_target(&mut rng).unwrap();
        let before = letters.qty_filled;
        letters.fill_target(l.brick_id);
        assert_eq!(letters.qty_filled, before + 1);
        assert!(letters.letter_brick[l.brick_id].filled);
        assert!(!letters.letter_brick[l.brick_id].targetted);
    }
    assert_eq!(base.qty_filled, 38);
    assert_eq!(letters.qty_filled, 10);
}

#[test]
fn claims_never_exceed_actionable_cells() {
    let mut rng = StdRng::seed_from_u64(4);
    let mut base = home_base();
    while base.request_target(&mut rng).is_some() {}
    let claims = claimed_count_base(&base);
    assert!(claims <= base.qty_filled as usize);
    assert!(claims > 0);
    let mut letters = LetterBricks::new();
    while letters.request_target(&mut rng).is_some() {}
    let claims = letters.letter_brick.iter().filter(|b| b.targetted).count();
    assert!(claims + letters.qty_filled <= BRICKS_QTY);
}

#[test]
fn saturated_grid_has_no_adjacent_claims() {
    let mut rng = StdRng::seed_from_u64(5);
    let mut base = home_base();
    while base.request_target(&mut rng).is_some() {}
    for id in 0..BRICK_QTY {
        if id % 4 < 3 {
            assert!(!(base.targetted[id] && base.targetted[id + 1]));
        }
    }
    let mut letters = LetterBricks::new();
    while letters.request_target(&mut rng).is_some() {}
    for i in 0..BRICKS_QTY {
        for j in 0..BRICKS_QTY {
            let (a, b) = (&letters.letter_brick[i], &letters.letter_brick[j]);
            if a.targetted && b.targetted && a.row == b.row {
                assert_ne!(b.col, a.col + 1);
            }
        }
    }
}

#[test]
fn letter_layout_and_first_candidates() {
    let g = LetterBricks::new();
    assert_eq!(g.letter_brick.len(), 86);
    assert_eq!((g.letter_brick[10].row, g.letter_brick[10].col), (0, 11));
    assert_eq!((g.letter_brick[63].row, g.letter_brick[63].col), (3, 26));
    assert_eq!((g.letter_brick[85].row, g.letter_brick[85].col), (5, 26));
    let c = g.target_candidates();
    let expected: Vec<usize> = (0..20).collect();
    assert_eq!(c, expected);
}

#[test]
fn letter_target_position() {
    let mut g = LetterBricks::new();
    let t = g.claim_candidate(12).unwrap();
    assert_eq!(t.brick_id, 12);
    assert_eq!(t.x, 97 + 13 * 15);
    assert_eq!(t.y, 140);
    let c = g.target_candidates();
    assert!(!c.contains(&11));
    assert!(!c.contains(&12));
    assert!(!c.contains(&13));
    assert!(c.contains(&14));
}

#[test]
fn letters_complete_and_removal() {
    let mut g = LetterBricks::new();
    for id in 0..BRICKS_QTY {
        g.letter_brick[id].targetted = true;
        g.fill_target(id);
    }
    assert!(g.complete());
    g.initiate_removal(3);
    assert_eq!(g.to_remove, vec![83, 84, 85]);
    assert!(g.update(15));
    assert!(!g.letter_brick[85].filled);
    assert_eq!(g.qty_filled, 85);
    assert!(!g.update(16));
    assert!(g.update(30));
    assert!(!g.letter_brick[84].filled);
    assert!(!g.complete());
}

#[test]
fn letters_expansion_cycle() {
    let mut g = LetterBricks::new();
    g.initiate_expansion();
    let mut peak = 0;
    let mut ticks = 0;
    while g.expansion != 0 {
        peak = peak.max(g.expansion);
        g.update(1);
        ticks += 1;
        assert!(ticks < 1000);
    }
    assert_eq!(peak, 146);
}

#[test]
fn letters_reset_empties() {
    let mut rng = StdRng::seed_from_u64(6);
    let mut g = LetterBricks::new();
    let t = g.request_target(&mut rng).unwrap();
    g.fill_target(t.brick_id);
    g.reset();
    assert_eq!(g.qty_filled, 0);
    assert!(g.letter_brick.iter().all(|b| !b.filled && !b.targetted));
}
