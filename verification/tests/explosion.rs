//! Explosion spawning and the one-shot frame animation.

use magnet_arena::entities::{Explosion, ExplosionTimer, ExplosionToSpawn};
use magnet_arena::explosion::{
    explosion_animation_system, explosion_to_spawn_system, tick_timer, EXPLOSION_LEN,
    EXPLOSION_PERIOD,
};
use magnet_arena::geom::Vec2;

fn running(frame: u64, elapsed: u64) -> Explosion {
    Explosion {
        pos: Vec2 { x: 0, y: 0 },
        timer: ExplosionTimer { elapsed, period: EXPLOSION_PERIOD },
        frame,
    }
}

#[test]
fn default_timer_is_fresh() {
    let t = ExplosionTimer::default();
    assert_eq!(t, ExplosionTimer { elapsed: 0, period: EXPLOSION_PERIOD });
}

#[test]
fn timer_fires_once_per_period_keeping_remainder() {
    let mut t = ExplosionTimer::default();
    // Three fixed-timestep frames of 16_667 us: the third crosses 50_000.
    assert_eq!(tick_timer(&mut t, 16_667), 0);
    assert_eq!(tick_timer(&mut t, 16_667), 0);
    assert_eq!(tick_timer(&mut t, 16_667), 1);
    assert_eq!(t.elapsed, 1);
    // A large step elapses several periods at once.
    assert_eq!(tick_timer(&mut t, 125_000), 2);
    assert_eq!(t.elapsed, 25_001);
}

#[test]
fn requests_become_running_explosions() {
    let mut requests = vec![
        ExplosionToSpawn(Vec2 { x: 1_000, y: 2_000 }),
        ExplosionToSpawn(Vec2 { x: -3_000, y: 4_000 }),
    ];
    let mut explosions = vec![running(5, 10_000)];
    explosion_to_spawn_system(&mut requests, &mut explosions);
    assert_eq!(requests.len(), 0);
    assert_eq!(explosions.len(), 3);
    // The old explosion is untouched; the new ones start at frame 0.
    assert_eq!(explosions[0], running(5, 10_000));
    assert_eq!(
        explosions[1],
        Explosion {
            pos: Vec2 { x: 1_000, y: 2_000 },
            timer: ExplosionTimer { elapsed: 0, period: EXPLOSION_PERIOD },
            frame: 0,
        }
    );
    assert_eq!(explosions[2].pos, Vec2 { x: -3_000, y: 4_000 });
}

#[test]
fn frame_advances_by_one_per_elapsed_period() {
    let mut explosions = vec![running(0, 0)];
    // Short of a period: no frame advance.
    explosion_animation_system(&mut explosions, EXPLOSION_PERIOD - 1);
    assert_eq!(explosions[0].frame, 0);
    // The next microsecond completes the period: exactly one advance.
    explosion_animation_system(&mut explosions, 1);
    assert_eq!(explosions[0].frame, 1);
    assert_eq!(explosions[0].timer.elapsed, 0);
}

#[test]
fn explosion_is_removed_exactly_when_frames_run_out() {
    // One frame short of the end: advancing one period keeps it (frame 15)…
    let mut explosions = vec![running(14, 0)];
    explosion_animation_system(&mut explosions, EXPLOSION_PERIOD);
    assert_eq!(explosions.len(), 1);
    assert_eq!(explosions[0].frame, EXPLOSION_LEN - 1);
    // …and the very next period removes it: not before, not after.
    explosion_animation_system(&mut explosions, EXPLOSION_PERIOD);
    assert_eq!(explosions.len(), 0);
}

#[test]
fn finished_explosions_are_dropped_in_place() {
    let mut explosions = vec![running(15, 0), running(3, 0), running(15, 49_999)];
    explosion_animation_system(&mut explosions, EXPLOSION_PERIOD);
    // First and third reached the sheet length; the second lives on.
    assert_eq!(explosions.len(), 1);
    assert_eq!(explosions[0].frame, 4);
}

#[test]
fn full_animation_lifecycle_is_sixteen_periods() {
    let mut explosions = vec![running(0, 0)];
    let mut periods = 0;
    while !explosions.is_empty() {
        explosion_animation_system(&mut explosions, EXPLOSION_PERIOD);
        periods += 1;
        assert!(periods <= 16);
    }
    assert_eq!(periods, 16);
}
