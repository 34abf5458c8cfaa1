//! Whole-frame scenarios on the world.

use magnet_arena::entities::{EnemyTint, Hp, InputState};
use magnet_arena::geom::Vec2;
use magnet_arena::world::{EnemySeed, World, PLAYER_START_Y};

const FRAME_US: u64 = 16_667;

fn seed(x: i64, y: i64, vx: i64, vy: i64) -> EnemySeed {
    EnemySeed { pos: Vec2 { x, y }, vel: Vec2 { x: vx, y: vy } }
}

#[test]
fn fresh_world_layout() {
    let w = World::new(&vec![seed(100_000, 0, 1_000, -2_000)]);
    assert_eq!(w.player_pos, Vec2 { x: 0, y: PLAYER_START_Y });
    assert_eq!(w.player_hp, Hp { current: 100, max: 100 });
    assert_eq!(w.score(), 0);
    assert_eq!(w.walls.len(), 4);
    assert_eq!(w.enemies.len(), 1);
    assert_eq!(w.enemies[0].pos, Vec2 { x: 100_000, y: 0 });
    assert_eq!(w.enemies[0].vel, Vec2 { x: 1_000, y: -2_000 });
    assert_eq!(w.enemies[0].hp, Hp { current: 10, max: 10 });
    assert_eq!(w.enemies[0].tint, EnemyTint::Normal);
    assert_eq!(w.requests.len(), 0);
    assert_eq!(w.explosions.len(), 0);
}

#[test]
fn attack_frame_kills_scores_and_spawns_explosion_next_frame() {
    // One enemy 50 units from the player with starting health 10: one
    // trigger press removes it and the score reads exactly 1.
    let mut w = World::new(&vec![seed(50_000, PLAYER_START_Y, 0, 0)]);
    let input = InputState { attack_mouse: true, ..InputState::none() };
    w.tick(&input, FRAME_US);
    assert_eq!(w.enemies.len(), 0);
    assert_eq!(w.score(), 1);
    // The explosion request is pending at the victim's position and becomes
    // a running animation at the start of the next frame.
    assert_eq!(w.requests.len(), 1);
    assert_eq!(w.explosions.len(), 0);
    w.tick(&InputState::none(), FRAME_US);
    assert_eq!(w.requests.len(), 0);
    assert_eq!(w.explosions.len(), 1);
    assert_eq!(w.explosions[0].pos, Vec2 { x: 50_000, y: PLAYER_START_Y });
    // A second attack on the empty arena changes nothing.
    w.tick(&input, FRAME_US);
    assert_eq!(w.score(), 1);
}

#[test]
fn enemy_bounces_off_left_wall_through_a_frame() {
    // Inbound velocity (-50, 0) units per second at the left wall comes out
    // as (50, 0); the same enemy moving away keeps its velocity.
    let mut w = World::new(&vec![seed(-440_000, 0, -50_000, 0)]);
    w.tick(&InputState::none(), FRAME_US);
    assert_eq!(w.enemies[0].vel, Vec2 { x: 50_000, y: 0 });

    let mut w = World::new(&vec![seed(-440_000, 0, 50_000, 0)]);
    w.tick(&InputState::none(), FRAME_US);
    assert_eq!(w.enemies[0].vel, Vec2 { x: 50_000, y: 0 });
}

#[test]
fn pull_at_exact_radius_adds_no_speed() {
    // Player and enemy at distance `radius` exactly: the pull leaves the
    // enemy entirely alone for the frame.
    let mut w = World::new(&vec![seed(200_000, PLAYER_START_Y, 0, 0)]);
    let input = InputState { pull_held: true, ..InputState::none() };
    w.tick(&input, FRAME_US);
    assert_eq!(w.enemies[0].vel, Vec2 { x: 0, y: 0 });
    assert_eq!(w.enemies[0].pos, Vec2 { x: 200_000, y: PLAYER_START_Y });
    assert_eq!(w.enemies[0].tint, EnemyTint::Normal);
    assert!(w.player_flip);
}

#[test]
fn pull_inside_radius_draws_enemy_in() {
    let mut w = World::new(&vec![seed(100_000, PLAYER_START_Y, 0, 0)]);
    let input = InputState { pull_held: true, ..InputState::none() };
    w.tick(&input, FRAME_US);
    // Steered toward the player at (150_000 + 100_000) * 0.99, then
    // integrated for one tick: 247_500 / 60 = 4_125 milliunits of motion.
    assert_eq!(w.enemies[0].vel, Vec2 { x: -247_500, y: 0 });
    assert_eq!(w.enemies[0].pos, Vec2 { x: 100_000 - 4_125, y: PLAYER_START_Y });
    assert_eq!(w.enemies[0].tint, EnemyTint::Pull);
}

#[test]
fn movement_keys_move_the_player_each_frame() {
    let mut w = World::new(&Vec::new());
    let input = InputState { right: true, up: true, ..InputState::none() };
    w.tick(&input, FRAME_US);
    w.tick(&input, FRAME_US);
    assert_eq!(w.player_pos, Vec2 { x: 10_000, y: PLAYER_START_Y + 10_000 });
}

#[test]
fn enemies_collide_with_each_other() {
    // Enemies are colliders too: one driving into an overlapping neighbor
    // is reflected, while the still neighbor (moving nowhere, so never
    // "into" a surface) keeps its velocity.
    let mut w = World::new(&vec![seed(0, 0, 4_000, 0), seed(15_000, 0, 0, 0)]);
    w.tick(&InputState::none(), FRAME_US);
    assert_eq!(w.enemies[0].vel, Vec2 { x: -4_000, y: 0 });
    assert_eq!(w.enemies[1].vel, Vec2 { x: 0, y: 0 });
}

#[test]
fn the_player_is_a_collider() {
    // An enemy overlapping the player from the right and moving left is
    // reflected off the player's box.
    let mut w = World::new(&vec![seed(20_000, PLAYER_START_Y, -3_000, 0)]);
    w.tick(&InputState::none(), FRAME_US);
    assert_eq!(w.enemies[0].vel, Vec2 { x: 3_000, y: 0 });
}

#[test]
fn invariant_checkers_see_what_holds() {
    let mut w = World::new(&vec![seed(100_000, 0, 1_000, -2_000)]);
    assert!(w.wf_check());
    assert!(w.enemies_within_check(100_000));
    assert!(!w.enemies_within_check(99_999));
    w.tick(&InputState::none(), FRAME_US);
    assert!(w.wf_check());
    // A corrupted world is detected: health above its maximum...
    let mut bad = World::new(&vec![seed(0, 0, 0, 0)]);
    bad.enemies[0].hp = Hp { current: 11, max: 10 };
    assert!(!bad.wf_check());
    // ...or a wall moved out of place.
    let mut bad = World::new(&Vec::new());
    bad.walls[0].pos.x += 1;
    assert!(!bad.wf_check());
}

#[test]
fn score_never_decreases_over_frames() {
    let mut w = World::new(&vec![
        seed(10_000, PLAYER_START_Y, 100_000, 0),
        seed(0, PLAYER_START_Y + 80_000, 0, -100_000),
    ]);
    let attack = InputState { attack_mouse: true, ..InputState::none() };
    let mut last = 0;
    for i in 0..120 {
        let input = if i % 7 == 0 { attack } else { InputState::none() };
        w.tick(&input, FRAME_US);
        assert!(w.score() >= last);
        last = w.score();
    }
}
