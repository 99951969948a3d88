use flappy::bird::{Square, JUMP_VELOCITY, MAX_POS, START_POS};
use flappy::game::{RETIRE_X, SPAWN_X};
use flappy::pillar::{Corners, GAP_HALF_HEIGHT, HOLE_END, HOLE_MIN};
use flappy::{Bird, Button, Game, Pillar};

fn game(pos: i64, velocity: i64, pillar: Vec<Pillar>) -> Game {
    Game { bird: Bird { pos, velocity }, pillar }
}

fn assert_reset_state(g: &Game, hole: i64) {
    assert_eq!(g.bird, Bird { pos: 1400, velocity: 0 });
    assert_eq!(g.pillar, vec![Pillar { pos: 5000, holepos: hole, space: 420 }]);
}

/// Jumps whenever the player has sunk below `hole`, which keeps it inside the gap.
fn hover_tick(g: &mut Game, hole: i64) {
    if g.bird.pos > hole {
        g.pressed_with(&Button::Space, hole);
    }
    g.update_with(hole);
}

#[test]
fn jump_then_tick() {
    let mut g = Game::new();
    assert_eq!(g.bird.velocity, 0);
    g.pressed_with(&Button::Space, 1000);
    assert_eq!(g.bird.velocity, -80);
    assert_eq!(g.bird.pos, 1400);
    g.update_with(1000);
    assert_eq!(g.bird.pos, 1400 - 80);
    assert_eq!(g.bird.velocity, -67);
}

#[test]
fn bird_gravity_and_cap() {
    let mut b = Bird::new();
    b.update();
    assert_eq!(b, Bird { pos: 1400, velocity: 13 });
    b.update();
    assert_eq!(b, Bird { pos: 1413, velocity: 26 });
    let mut at_cap = Bird { pos: 1000, velocity: 100 };
    at_cap.update();
    assert_eq!(at_cap, Bird { pos: 1100, velocity: 100 });
    let mut below_cap = Bird { pos: 1000, velocity: 99 };
    below_cap.update();
    assert_eq!(below_cap, Bird { pos: 1099, velocity: 112 });
}

#[test]
fn bird_clamps_to_screen() {
    let mut low = Bird { pos: 2790, velocity: 20 };
    low.update();
    assert_eq!(low, Bird { pos: MAX_POS, velocity: 0 });
    let mut high = Bird { pos: 50, velocity: JUMP_VELOCITY };
    high.update();
    assert_eq!(high, Bird { pos: 0, velocity: 0 });
}

#[test]
fn bird_square() {
    let b = Bird { pos: 1234, velocity: 5 };
    assert_eq!(b.square(), Square { x: 500, y: 1234, side: 200 });
}

#[test]
fn pillar_moves_left() {
    let mut p = Pillar::with_hole(5000, 1500);
    for _ in 0..151 {
        p.update();
    }
    assert_eq!(p.pos, 470);
    assert!(p.pos <= 530);
    assert_eq!(p.holepos, 1500);
}

#[test]
fn pillar_corners() {
    let p = Pillar::with_hole(1000, 1500);
    assert_eq!(p.upper_corners(), Corners { x0: 1000, y0: 0, x1: 1300, y1: 1080 });
    assert_eq!(p.lower_corners(), Corners { x0: 1000, y0: 1920, x1: 1300, y1: 3000 });
}

#[test]
fn pillar_column_and_hits() {
    let p = Pillar::with_hole(500, 1500);
    assert!(p.in_column());
    assert!(!Pillar::with_hole(200, 1500).in_column());
    assert!(Pillar::with_hole(201, 1500).in_column());
    assert!(!Pillar::with_hole(700, 1500).in_column());
    assert!(Pillar::with_hole(699, 1500).in_column());
    assert!(!p.hits(1500));
    assert!(!p.hits(1081));
    assert!(p.hits(1080));
    assert!(p.hits(1920));
    assert!(!p.hits(1919));
    assert!(!Pillar::with_hole(1000, 1500).hits(0));
}

#[test]
fn random_pillar_in_range() {
    let mut seen = Vec::new();
    for _ in 0..200 {
        let p = Pillar::new(SPAWN_X);
        assert_eq!(p.pos, SPAWN_X);
        assert_eq!(p.space, GAP_HALF_HEIGHT);
        assert!(HOLE_MIN <= p.holepos && p.holepos < HOLE_END);
        if !seen.contains(&p.holepos) {
            seen.push(p.holepos);
        }
    }
    assert!(seen.len() > 1);
}

#[test]
fn reset_twice_same_as_once() {
    let mut once = game(300, 50, vec![Pillar::with_hole(1000, 1000), Pillar::with_hole(3000, 2000)]);
    once.reset_with(1234);
    assert_reset_state(&once, 1234);
    let mut twice = game(300, 50, vec![Pillar::with_hole(1000, 1000)]);
    twice.reset_with(1234);
    twice.reset_with(1234);
    assert_eq!(twice.bird, once.bird);
    assert_eq!(twice.pillar, once.pillar);
}

#[test]
fn random_reset() {
    let mut g = game(300, 50, vec![Pillar::with_hole(1000, 1000)]);
    g.reset();
    assert_eq!(g.bird, Bird { pos: START_POS, velocity: 0 });
    assert_eq!(g.pillar.len(), 1);
    assert_eq!(g.pillar[0].pos, SPAWN_X);
    assert!(HOLE_MIN <= g.pillar[0].holepos && g.pillar[0].holepos < HOLE_END);
}

#[test]
fn collision_below_gap_resets() {
    let mut g = game(500, 0, vec![Pillar::with_hole(530, 1500)]);
    g.update_with(1111);
    assert_reset_state(&g, 1111);
}

#[test]
fn collision_above_gap_resets() {
    let mut g = game(2000, 0, vec![Pillar::with_hole(400, 1500)]);
    g.update_with(999);
    assert_reset_state(&g, 999);
}

#[test]
fn no_collision_outside_column() {
    let mut g = game(500, 0, vec![Pillar::with_hole(760, 1500)]);
    g.update_with(1111);
    assert_eq!(g.bird, Bird { pos: 500, velocity: 13 });
    assert_eq!(g.pillar, vec![Pillar::with_hole(730, 1500), Pillar::with_hole(5000, 1111)]);
}

#[test]
fn reaching_bottom_boundary_resets() {
    let mut g = game(2490, 20, vec![]);
    g.update_with(1500);
    assert_reset_state(&g, 1500);
}

#[test]
fn reaching_top_boundary_resets() {
    let mut g = game(10, -80, vec![Pillar::with_hole(4000, 1500)]);
    g.update_with(1500);
    assert_reset_state(&g, 1500);
}

#[test]
fn passing_through_gap_does_not_reset() {
    let hole = 1500;
    let mut g = game(1500, 0, vec![Pillar::with_hole(800, hole)]);
    let mut expected = 800;
    while expected > 100 {
        hover_tick(&mut g, hole);
        expected -= 30;
        assert_eq!(g.pillar[0].pos, expected);
        assert!(g.bird.pos > hole - 420 && g.bird.pos < hole + 420);
    }
}

#[test]
fn spawn_and_retire_schedule() {
    let hole = 1500;
    let mut g = game(1500, 0, vec![Pillar::with_hole(5000, hole)]);
    for tick in 1..=190 {
        hover_tick(&mut g, hole);
        if tick < 51 {
            assert_eq!(g.pillar.len(), 1);
        }
        if tick == 51 {
            assert_eq!(g.pillar.len(), 2);
            assert_eq!(g.pillar[0].pos, 3470);
            assert_eq!(g.pillar[1].pos, 5000);
        }
        if tick == 151 {
            assert_eq!(g.pillar[0].pos, 470);
            assert!(g.pillar.len() >= 2);
        }
        if tick == 183 {
            assert_eq!(g.pillar[0].pos, -490);
        }
        if tick == 184 {
            assert_eq!(g.pillar[0].pos, 1010);
            assert_eq!(g.pillar.len(), 3);
        }
    }
}

#[test]
fn retire_and_spawn_policy() {
    let mut g = game(1000, 0, vec![Pillar::with_hole(RETIRE_X - 1, 1000), Pillar::with_hole(3499, 1000)]);
    g.retire_first();
    assert_eq!(g.pillar, vec![Pillar::with_hole(3499, 1000)]);
    g.spawn_with(2000);
    assert_eq!(g.pillar, vec![Pillar::with_hole(3499, 1000), Pillar::with_hole(5000, 2000)]);
    g.spawn_with(2000);
    assert_eq!(g.pillar.len(), 2);
    let mut kept = game(1000, 0, vec![Pillar::with_hole(RETIRE_X, 1000)]);
    kept.retire_first();
    assert_eq!(kept.pillar.len(), 1);
    let mut empty = game(1000, 0, vec![]);
    empty.retire_first();
    empty.spawn_with(950);
    assert_eq!(empty.pillar, vec![Pillar::with_hole(5000, 950)]);
}

#[test]
fn first_tick_spawns() {
    let mut g = Game::new();
    assert!(g.pillar.is_empty());
    g.update_with(1700);
    assert_eq!(g.pillar, vec![Pillar::with_hole(5000, 1700)]);
    for _ in 0..300 {
        g.update_with(1700);
        assert!(!g.pillar.is_empty());
        assert!(g.bird.pos >= 0 && g.bird.pos <= MAX_POS);
    }
}

#[test]
fn random_ticks_keep_obstacles() {
    let mut g = Game::new();
    for _ in 0..300 {
        g.update();
        assert!(!g.pillar.is_empty());
        assert!(g.bird.pos >= 0 && g.bird.pos <= MAX_POS);
        for p in &g.pillar {
            assert!(HOLE_MIN <= p.holepos && p.holepos < HOLE_END);
        }
    }
}

#[test]
fn buttons() {
    let mut g = game(1000, 30, vec![Pillar::with_hole(2000, 1000)]);
    g.pressed_with(&Button::Other, 1500);
    assert_eq!(g.bird, Bird { pos: 1000, velocity: 30 });
    assert_eq!(g.pillar, vec![Pillar::with_hole(2000, 1000)]);
    g.pressed_with(&Button::R, 1500);
    assert_reset_state(&g, 1500);
    g.pressed(&Button::Space);
    assert_eq!(g.bird, Bird { pos: 1400, velocity: -80 });
    g.pressed(&Button::R);
    assert_eq!(g.bird, Bird { pos: 1400, velocity: 0 });
    assert_eq!(g.pillar.len(), 1);
}
