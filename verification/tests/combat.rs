//! Combat: area melee within the weapon radius, damage, kills, score, and
//! explosion requests.

use magnet_arena::combat::combat;
use magnet_arena::entities::{Enemy, EnemyTint, ExplosionToSpawn, Hp, InputState};
use magnet_arena::geom::Vec2;

fn enemy_at(pos: Vec2, hp: i32) -> Enemy {
    Enemy {
        pos,
        vel: Vec2 { x: 0, y: 0 },
        hp: Hp { current: hp, max: hp },
        tint: EnemyTint::Normal,
    }
}

fn attack_input() -> InputState {
    InputState { attack_mouse: true, ..InputState::none() }
}

#[test]
fn one_trigger_kills_enemy_in_range() {
    // Player at the origin, one enemy at distance 50 units with health 10:
    // a single trigger press removes it and scores exactly one point.
    let player = Vec2 { x: 0, y: 0 };
    let mut enemies = vec![enemy_at(Vec2 { x: 50_000, y: 0 }, 10)];
    let mut requests: Vec<ExplosionToSpawn> = Vec::new();
    let mut score: usize = 0;
    let hit = combat(player, &mut enemies, &mut requests, &mut score, &attack_input());
    assert!(hit);
    assert_eq!(enemies.len(), 0);
    assert_eq!(score, 1);
    assert_eq!(requests.len(), 1);
    assert_eq!(requests[0], ExplosionToSpawn(Vec2 { x: 50_000, y: 0 }));
}

#[test]
fn no_trigger_means_no_combat() {
    let player = Vec2 { x: 0, y: 0 };
    let mut enemies = vec![enemy_at(Vec2 { x: 50_000, y: 0 }, 10)];
    let mut requests: Vec<ExplosionToSpawn> = Vec::new();
    let mut score: usize = 0;
    let hit = combat(player, &mut enemies, &mut requests, &mut score, &InputState::none());
    assert!(!hit);
    assert_eq!(enemies.len(), 1);
    assert_eq!(enemies[0].hp, Hp { current: 10, max: 10 });
    assert_eq!(score, 0);
    assert_eq!(requests.len(), 0);
}

#[test]
fn keyboard_trigger_works_too() {
    let player = Vec2 { x: 0, y: 0 };
    let mut enemies = vec![enemy_at(Vec2 { x: 50_000, y: 0 }, 20)];
    let mut requests: Vec<ExplosionToSpawn> = Vec::new();
    let mut score: usize = 0;
    let input = InputState { attack_key: true, ..InputState::none() };
    let hit = combat(player, &mut enemies, &mut requests, &mut score, &input);
    assert!(hit);
    assert_eq!(enemies[0].hp, Hp { current: 10, max: 20 });
}

#[test]
fn every_enemy_in_radius_is_hit_at_once() {
    // Area melee: all enemies in range take the same hit on one trigger;
    // survivors lose exactly the damage constant, out-of-range enemies
    // nothing.
    let player = Vec2 { x: 0, y: 0 };
    let mut enemies = vec![
        enemy_at(Vec2 { x: 50_000, y: 0 }, 30),
        enemy_at(Vec2 { x: 0, y: -80_000 }, 10),
        enemy_at(Vec2 { x: 150_000, y: 0 }, 10),
        enemy_at(Vec2 { x: -60_000, y: 0 }, 25),
    ];
    let mut requests: Vec<ExplosionToSpawn> = Vec::new();
    let mut score: usize = 7;
    combat(player, &mut enemies, &mut requests, &mut score, &attack_input());
    // The second enemy died; the others survive in order.
    assert_eq!(enemies.len(), 3);
    assert_eq!(enemies[0].hp, Hp { current: 20, max: 30 });
    assert_eq!(enemies[1].pos, Vec2 { x: 150_000, y: 0 });
    assert_eq!(enemies[1].hp, Hp { current: 10, max: 10 });
    assert_eq!(enemies[2].hp, Hp { current: 15, max: 25 });
    assert_eq!(score, 8);
    assert_eq!(requests, vec![ExplosionToSpawn(Vec2 { x: 0, y: -80_000 })]);
}

#[test]
fn weapon_radius_boundary_is_inclusive() {
    // An enemy at the weapon radius exactly is hit; one a milliunit beyond
    // is not.
    let player = Vec2 { x: 0, y: 0 };
    let mut enemies = vec![
        enemy_at(Vec2 { x: 100_000, y: 0 }, 20),
        enemy_at(Vec2 { x: 100_001, y: 0 }, 20),
    ];
    let mut requests: Vec<ExplosionToSpawn> = Vec::new();
    let mut score: usize = 0;
    combat(player, &mut enemies, &mut requests, &mut score, &attack_input());
    assert_eq!(enemies[0].hp, Hp { current: 10, max: 20 });
    assert_eq!(enemies[1].hp, Hp { current: 20, max: 20 });
}

#[test]
fn kill_requires_health_to_reach_zero() {
    // Health 11 survives a 10-damage hit with 1 left; health 10 dies.
    let player = Vec2 { x: 0, y: 0 };
    let mut enemies = vec![
        enemy_at(Vec2 { x: 10_000, y: 0 }, 11),
        enemy_at(Vec2 { x: -10_000, y: 0 }, 10),
    ];
    let mut requests: Vec<ExplosionToSpawn> = Vec::new();
    let mut score: usize = 0;
    combat(player, &mut enemies, &mut requests, &mut score, &attack_input());
    assert_eq!(enemies.len(), 1);
    assert_eq!(enemies[0].hp, Hp { current: 1, max: 11 });
    assert_eq!(score, 1);
    assert_eq!(requests, vec![ExplosionToSpawn(Vec2 { x: -10_000, y: 0 })]);
}

#[test]
fn each_death_scores_exactly_once() {
    // Three kills on one frame: the score grows by exactly three, one
    // request per victim, in order.
    let player = Vec2 { x: 0, y: 0 };
    let mut enemies = vec![
        enemy_at(Vec2 { x: 1_000, y: 0 }, 5),
        enemy_at(Vec2 { x: 2_000, y: 0 }, 10),
        enemy_at(Vec2 { x: 3_000, y: 0 }, 3),
    ];
    let mut requests: Vec<ExplosionToSpawn> = Vec::new();
    let mut score: usize = 0;
    combat(player, &mut enemies, &mut requests, &mut score, &attack_input());
    assert_eq!(enemies.len(), 0);
    assert_eq!(score, 3);
    assert_eq!(
        requests,
        vec![
            ExplosionToSpawn(Vec2 { x: 1_000, y: 0 }),
            ExplosionToSpawn(Vec2 { x: 2_000, y: 0 }),
            ExplosionToSpawn(Vec2 { x: 3_000, y: 0 }),
        ]
    );
}
