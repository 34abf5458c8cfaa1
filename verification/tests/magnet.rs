//! The magnet force field: radius gating, hyperbolic falloff, steering, and
//! the pull/push interplay.

use magnet_arena::entities::{Enemy, EnemyTint, Hp, InputState, TickEvents};
use magnet_arena::geom::Vec2;
use magnet_arena::magnet::{falloff_speed, magnet, pull_push_enemy};

fn enemy_at(pos: Vec2, vel: Vec2) -> Enemy {
    Enemy { pos, vel, hp: Hp { current: 10, max: 10 }, tint: EnemyTint::Normal }
}

#[test]
fn falloff_values() {
    // At the radius exactly, the falloff term equals the field strength.
    assert_eq!(falloff_speed(200_000), 50_000);
    // At half the radius it has doubled.
    assert_eq!(falloff_speed(100_000), 100_000);
    // It grows all the way to the numerator at distance one.
    assert_eq!(falloff_speed(1), 10_000_000_000);
}

#[test]
fn falloff_never_increases_with_distance() {
    let samples =
        [1u64, 2, 10, 999, 1_000, 50_000, 99_999, 100_000, 150_000, 199_999, 200_000];
    for w in samples.windows(2) {
        assert!(falloff_speed(w[0]) >= falloff_speed(w[1]));
    }
    // Close in, the falloff is strictly decreasing...
    assert!(falloff_speed(99_999) > falloff_speed(100_000));
    // ...while whole-milliunit rounding ties some far-out neighbors.
    assert_eq!(falloff_speed(199_999), falloff_speed(200_000));
}

#[test]
fn pull_steers_toward_player() {
    let player = Vec2 { x: 0, y: 0 };
    let mut e = enemy_at(Vec2 { x: 100_000, y: 0 }, Vec2 { x: 1, y: 2 });
    pull_push_enemy(player, &mut e, false);
    // Target speed 150_000 + 100_000, dragged by 0.99, toward the player.
    assert_eq!(e.vel, Vec2 { x: -247_500, y: 0 });
    assert_eq!(e.tint, EnemyTint::Pull);
    assert_eq!(e.pos, Vec2 { x: 100_000, y: 0 });
    assert_eq!(e.hp, Hp { current: 10, max: 10 });
}

#[test]
fn push_steers_away_from_player() {
    let player = Vec2 { x: 0, y: 0 };
    let mut e = enemy_at(Vec2 { x: 100_000, y: 0 }, Vec2 { x: 1, y: 2 });
    pull_push_enemy(player, &mut e, true);
    assert_eq!(e.vel, Vec2 { x: 247_500, y: 0 });
    assert_eq!(e.tint, EnemyTint::Push);
}

#[test]
fn enemy_outside_radius_is_untouched() {
    let player = Vec2 { x: 0, y: 0 };
    let original = enemy_at(Vec2 { x: 250_000, y: 0 }, Vec2 { x: 1, y: 2 });
    let mut e = original;
    pull_push_enemy(player, &mut e, false);
    assert_eq!(e, original);
    let mut e = original;
    pull_push_enemy(player, &mut e, true);
    assert_eq!(e, original);
}

#[test]
fn enemy_at_radius_exactly_gets_no_extra_speed() {
    // Distance equals the radius: the strict radius test leaves the enemy
    // alone, so the pull adds no speed at all at the boundary.
    let player = Vec2 { x: 0, y: 0 };
    let original = enemy_at(Vec2 { x: 200_000, y: 0 }, Vec2 { x: -3, y: 9 });
    let mut e = original;
    pull_push_enemy(player, &mut e, false);
    assert_eq!(e, original);
}

#[test]
fn enemy_on_player_is_skipped() {
    let player = Vec2 { x: 4_000, y: -2_000 };
    let original = enemy_at(Vec2 { x: 4_000, y: -2_000 }, Vec2 { x: 5, y: 6 });
    let mut e = original;
    pull_push_enemy(player, &mut e, false);
    assert_eq!(e, original);
}

#[test]
fn axis_projecting_out_of_arena_is_not_written() {
    // Close to the player the push is so strong that the projected x
    // position leaves the arena; x keeps its old velocity while y is still
    // written.
    let player = Vec2 { x: 0, y: 0 };
    let mut e = enemy_at(Vec2 { x: 10_000, y: 0 }, Vec2 { x: 7, y: 8 });
    pull_push_enemy(player, &mut e, true);
    assert_eq!(e.vel, Vec2 { x: 7, y: 0 });
    assert_eq!(e.tint, EnemyTint::Push);
}

#[test]
fn magnet_resets_tints_and_push_overrides_pull() {
    let player = Vec2 { x: 0, y: 0 };
    let mut enemies = vec![
        Enemy {
            pos: Vec2 { x: 100_000, y: 0 },
            vel: Vec2 { x: 1, y: 2 },
            hp: Hp { current: 10, max: 10 },
            tint: EnemyTint::Pull,
        },
        enemy_at(Vec2 { x: 250_000, y: 0 }, Vec2 { x: 3, y: 4 }),
    ];
    // Neither key held: tints reset, velocities untouched.
    let ev = magnet(player, &mut enemies, &InputState::none());
    assert_eq!(enemies[0].tint, EnemyTint::Normal);
    assert_eq!(enemies[0].vel, Vec2 { x: 1, y: 2 });
    assert_eq!(ev, TickEvents { play_pull_sound: false, play_push_sound: false });

    // Both keys held: the push pass runs after the pull pass and wins.
    let input = InputState { pull_held: true, push_held: true, ..InputState::none() };
    let _ = magnet(player, &mut enemies, &input);
    assert_eq!(enemies[0].vel, Vec2 { x: 247_500, y: 0 });
    assert_eq!(enemies[0].tint, EnemyTint::Push);
    // The far enemy stays untouched either way.
    assert_eq!(enemies[1].vel, Vec2 { x: 3, y: 4 });
    assert_eq!(enemies[1].tint, EnemyTint::Normal);
}

#[test]
fn magnet_sound_events_follow_key_edges() {
    let player = Vec2 { x: 0, y: 0 };
    let mut enemies: Vec<Enemy> = Vec::new();
    let input = InputState { pull_just_pressed: true, ..InputState::none() };
    let ev = magnet(player, &mut enemies, &input);
    assert_eq!(ev, TickEvents { play_pull_sound: true, play_push_sound: false });
    let input = InputState { push_just_pressed: true, push_held: true, ..InputState::none() };
    let ev = magnet(player, &mut enemies, &input);
    assert_eq!(ev, TickEvents { play_pull_sound: false, play_push_sound: true });
}
