//! Player movement and velocity integration.

use magnet_arena::entities::{Enemy, EnemyTint, Hp, InputState};
use magnet_arena::geom::Vec2;
use magnet_arena::movement::{
    apply_velocity, move_enemies_to_player, move_player, steer_component, PLAYER_BOTTOM_BOUND,
    PLAYER_LEFT_BOUND, PLAYER_RIGHT_BOUND, PLAYER_TOP_BOUND,
};

fn enemy_at(pos: Vec2, vel: Vec2) -> Enemy {
    Enemy { pos, vel, hp: Hp { current: 10, max: 10 }, tint: EnemyTint::Normal }
}

#[test]
fn player_moves_one_step_per_axis() {
    let mut pos = Vec2 { x: 0, y: 0 };
    let input = InputState { right: true, ..InputState::none() };
    move_player(&mut pos, &input);
    assert_eq!(pos, Vec2 { x: 5_000, y: 0 });

    // Diagonal input takes a full step on both axes (not normalized).
    let mut pos = Vec2 { x: 0, y: 0 };
    let input = InputState { left: true, up: true, ..InputState::none() };
    move_player(&mut pos, &input);
    assert_eq!(pos, Vec2 { x: -5_000, y: 5_000 });

    // Opposite keys cancel.
    let mut pos = Vec2 { x: 7, y: -7 };
    let input = InputState { left: true, right: true, up: true, down: true, ..InputState::none() };
    move_player(&mut pos, &input);
    assert_eq!(pos, Vec2 { x: 7, y: -7 });
}

#[test]
fn player_is_clamped_to_arena() {
    // Walking into the left bound stays at the bound.
    let mut pos = Vec2 { x: PLAYER_LEFT_BOUND, y: 0 };
    let input = InputState { left: true, ..InputState::none() };
    move_player(&mut pos, &input);
    assert_eq!(pos, Vec2 { x: PLAYER_LEFT_BOUND, y: 0 });

    // Even a far-out starting position comes back into bounds in one tick.
    let mut pos = Vec2 { x: 4_000_000_000_000_000_000, y: -4_000_000_000_000_000_000 };
    move_player(&mut pos, &InputState::none());
    assert_eq!(pos, Vec2 { x: PLAYER_RIGHT_BOUND, y: PLAYER_BOTTOM_BOUND });

    let mut pos = Vec2 { x: 419_999, y: 269_999 };
    let input = InputState { right: true, up: true, ..InputState::none() };
    move_player(&mut pos, &input);
    assert_eq!(pos, Vec2 { x: PLAYER_RIGHT_BOUND, y: PLAYER_TOP_BOUND });
}

#[test]
fn velocity_integrates_at_a_sixtieth() {
    let mut enemies = vec![
        enemy_at(Vec2 { x: 0, y: 0 }, Vec2 { x: 60_000, y: -60_000 }),
        enemy_at(Vec2 { x: 100, y: 200 }, Vec2 { x: 59, y: -59 }),
        enemy_at(Vec2 { x: -1_000, y: 2_000 }, Vec2 { x: -50_000, y: 150_000 }),
    ];
    apply_velocity(&mut enemies);
    assert_eq!(enemies[0].pos, Vec2 { x: 1_000, y: -1_000 });
    // A velocity below one milliunit per tick rounds toward zero: no motion.
    assert_eq!(enemies[1].pos, Vec2 { x: 100, y: 200 });
    assert_eq!(enemies[2].pos, Vec2 { x: -1_833, y: 4_500 });
    // Velocity and health are untouched.
    assert_eq!(enemies[0].vel, Vec2 { x: 60_000, y: -60_000 });
    assert_eq!(enemies[2].hp, Hp { current: 10, max: 10 });
}

#[test]
fn steer_component_scales_by_offset_and_drag() {
    // Full offset along one axis: the whole target speed, dragged by 0.99.
    assert_eq!(steer_component(100_000, 150_000, 100_000), 148_500);
    assert_eq!(steer_component(-100_000, 150_000, 100_000), -148_500);
    // Half offset: half the dragged speed.
    assert_eq!(steer_component(50_000, 150_000, 100_000), 74_250);
    // Rounds toward zero.
    assert_eq!(steer_component(3, 100, 5), 59);
    assert_eq!(steer_component(-3, 100, 5), -59);
}

#[test]
fn enemies_seek_the_player_at_base_speed() {
    let player = Vec2 { x: 0, y: 0 };
    let mut enemies = vec![
        enemy_at(Vec2 { x: 100_000, y: 0 }, Vec2 { x: 7, y: 7 }),
        // Standing exactly on the player: no direction, velocity kept.
        enemy_at(Vec2 { x: 0, y: 0 }, Vec2 { x: 7, y: 7 }),
    ];
    move_enemies_to_player(player, &mut enemies);
    assert_eq!(enemies[0].vel, Vec2 { x: -148_500, y: 0 });
    assert_eq!(enemies[1].vel, Vec2 { x: 7, y: 7 });
}

#[test]
fn seek_leaves_axis_alone_when_projection_exits_arena() {
    let player = Vec2 { x: 0, y: 0 };
    // From x = -600_000 the steered x component is 148_500, and the
    // projected position -451_500 is outside the left wall, so the x
    // velocity is left unchanged; the y axis projects inside and is written.
    let mut enemies = vec![enemy_at(Vec2 { x: -600_000, y: 100 }, Vec2 { x: 3, y: 4 })];
    move_enemies_to_player(player, &mut enemies);
    assert_eq!(enemies[0].vel, Vec2 { x: 3, y: -24 });
}
