//! The world: one player, the enemies, the four walls, pending explosion
//! requests, running explosions, and the score, advanced one fixed tick at a
//! time. The systems run in a declared order — pending explosion spawns,
//! force field, player movement, combat, velocity integration, wall
//! collisions, explosion timers — and that ordering is the consistency
//! mechanism: each step sees exactly what the previous ones left.

use vstd::prelude::*;
use crate::arena::{arena_walls, wall_collider, WallLocation, BOTTOM_WALL};
use crate::collision::{
    check_for_collisions, collide_enemy_spec, collider_wf, lemma_collide_enemies_props,
};
use crate::combat::{
    combat, combat_enemies, combat_kills, combat_requests, lemma_combat_counts,
    lemma_combat_enemies_wf,
};
use crate::entities::{
    enemy_wf, hp_wf, Collider, Enemy, EnemyTint, Explosion, ExplosionToSpawn, Hp, InputState,
    TickEvents, ENEMY_HEALTH, ENEMY_SIZE_X, ENEMY_SIZE_Y, PLAYER_HEALTH, PLAYER_SIZE_X,
    PLAYER_SIZE_Y, VEL_LIMIT,
};
use crate::explosion::{
    animate_all, explosion_animation_system, explosion_to_spawn_system, explosion_wf,
    lemma_animate_all_wf, spawn_explosion_spec, timer_wf, DELTA_LIMIT, EXPLOSION_PERIOD,
};
use crate::geom::{in_coord_range, pos_within, Vec2};
use crate::magnet::{lemma_magnet_props, magnet, magnet_spec};
use crate::movement::{
    apply_velocity, integrate_spec, lemma_integrate_props, move_player, move_player_spec,
    player_in_bounds, PLAYER_BOTTOM_BOUND, PLAYER_LEFT_BOUND, PLAYER_RIGHT_BOUND,
    PLAYER_TOP_BOUND,
};

verus! {

/// Vertical gap between the bottom wall and the player's starting position,
/// in milliunits.
pub const GAP_BETWEEN_PLAYER_AND_FLOOR: i64 = 60_000;

/// y coordinate the player starts at: the bottom wall plus the gap.
pub const PLAYER_START_Y: i64 = -240_000;

/// How many enemies a fresh arena is seeded with.
pub const ENEMY_COUNT: usize = 10;

/// Largest enemy coordinate magnitude a tick accepts, in milliunits: a
/// million times the arena's span, and comfortably clear of the distance
/// routines' own limit even after another tick of drift.
pub const SIM_LIMIT: i64 = 1_000_000_000_000_000_000;

/// Starting position and velocity for one seeded enemy.
#[derive(Clone, Copy, PartialEq, Eq, Structural, Debug)]
pub struct EnemySeed {
    pub pos: Vec2,
    pub vel: Vec2,
}

/// The whole simulation state. The scoreboard is the `score` field,
/// explicit state rather than anything process-wide; the display layer only
/// ever reads it.
pub struct World {
    pub player_pos: Vec2,
    pub player_hp: Hp,
    /// Whether the player sprite is shown flipped: set while the pull key is
    /// held, purely visual state for the renderer.
    pub player_flip: bool,
    pub enemies: Vec<Enemy>,
    pub walls: Vec<Collider>,
    pub requests: Vec<ExplosionToSpawn>,
    pub explosions: Vec<Explosion>,
    pub score: usize,
}

impl World {
    /// The world's standing invariant: the player is alive and inside its
    /// bounds, the four walls stand at the arena edges, every enemy is alive
    /// and within the speed cap, and every explosion animation is running.
    pub open spec fn wf(self) -> bool {
        &&& player_in_bounds(self.player_pos)
        &&& hp_wf(self.player_hp)
        &&& self.walls@ == arena_walls()
        &&& forall|j: int| 0 <= j < self.enemies@.len() ==> enemy_wf(#[trigger] self.enemies@[j])
        &&& forall|j: int|
            0 <= j < self.explosions@.len() ==> explosion_wf(#[trigger] self.explosions@[j])
    }

    /// Every enemy within `b` milliunits of the origin per axis.
    pub open spec fn enemies_within(self, b: int) -> bool {
        forall|j: int|
            0 <= j < self.enemies@.len() ==> pos_within((#[trigger] self.enemies@[j]).pos, b)
    }

    /// A fresh arena: the player at the start position with full health, the
    /// four walls, one enemy per seed with the starting health, no score, no
    /// explosions.
    pub fn new(seeds: &Vec<EnemySeed>) -> (w: World)
        requires
            forall|j: int|
                0 <= j < seeds@.len() ==> pos_within((#[trigger] seeds@[j]).pos, SIM_LIMIT as int)
                    && crate::entities::vel_in_limit(seeds@[j].vel),
        ensures
            w.wf(),
            w.enemies_within(SIM_LIMIT as int),
            w.player_pos == (Vec2 { x: 0, y: PLAYER_START_Y }),
            w.player_hp == (Hp { current: PLAYER_HEALTH, max: PLAYER_HEALTH }),
            w.player_flip == false,
            w.score == 0,
            w.requests@.len() == 0,
            w.explosions@.len() == 0,
            w.walls@ == arena_walls(),
            w.enemies@.len() == seeds@.len(),
            forall|j: int|
                0 <= j < seeds@.len() ==> w.enemies@[j] == (Enemy {
                    pos: (#[trigger] seeds@[j]).pos,
                    vel: seeds@[j].vel,
                    hp: Hp { current: ENEMY_HEALTH, max: ENEMY_HEALTH },
                    tint: EnemyTint::Normal,
                }),
    {
        assert(BOTTOM_WALL + GAP_BETWEEN_PLAYER_AND_FLOOR == PLAYER_START_Y);
        let mut walls: Vec<Collider> = Vec::new();
        walls.push(wall_collider(WallLocation::Left));
        walls.push(wall_collider(WallLocation::Right));
        walls.push(wall_collider(WallLocation::Bottom));
        walls.push(wall_collider(WallLocation::Top));
        proof {
            assert(walls@ =~= arena_walls());
        }
        let mut enemies: Vec<Enemy> = Vec::new();
        let n: usize = seeds.len();
        let mut i: usize = 0;
        while i < n
            invariant
                i <= n,
                n == seeds@.len(),
                enemies@.len() == i,
                forall|j: int|
                    0 <= j < seeds@.len() ==> pos_within(
                        (#[trigger] seeds@[j]).pos,
                        SIM_LIMIT as int,
                    ) && crate::entities::vel_in_limit(seeds@[j].vel),
                forall|j: int|
                    0 <= j < i ==> enemies@[j] == (Enemy {
                        pos: (#[trigger] seeds@[j]).pos,
                        vel: seeds@[j].vel,
                        hp: Hp { current: ENEMY_HEALTH, max: ENEMY_HEALTH },
                        tint: EnemyTint::Normal,
                    }),
            decreases n - i,
        {
            let s: EnemySeed = seeds[i];
            enemies.push(
                Enemy {
                    pos: s.pos,
                    vel: s.vel,
                    hp: Hp { current: ENEMY_HEALTH, max: ENEMY_HEALTH },
                    tint: EnemyTint::Normal,
                },
            );
            i = i + 1;
        }
        proof {
            assert forall|j: int| 0 <= j < enemies@.len() implies enemy_wf(
                #[trigger] enemies@[j],
            ) && pos_within(enemies@[j].pos, SIM_LIMIT as int) by {
                assert(pos_within((#[trigger] seeds@[j]).pos, SIM_LIMIT as int)
                    && crate::entities::vel_in_limit(seeds@[j].vel));
            }
        }
        World {
            player_pos: Vec2 { x: 0, y: PLAYER_START_Y },
            player_hp: Hp { current: PLAYER_HEALTH, max: PLAYER_HEALTH },
            player_flip: false,
            enemies,
            walls,
            requests: Vec::new(),
            explosions: Vec::new(),
            score: 0,
        }
    }

    /// Decide the standing invariant at run time, exactly: callers that
    /// cannot carry the proof (an outer driver loop) can test it and fail
    /// fast instead of ticking a corrupted world.
    pub fn wf_check(&self) -> (r: bool)
        ensures
            r == self.wf(),
    {
        if !(PLAYER_LEFT_BOUND <= self.player_pos.x && self.player_pos.x <= PLAYER_RIGHT_BOUND
            && PLAYER_BOTTOM_BOUND <= self.player_pos.y && self.player_pos.y
            <= PLAYER_TOP_BOUND) {
            return false;
        }
        if !(1 <= self.player_hp.current && self.player_hp.current <= self.player_hp.max) {
            return false;
        }
        if self.walls.len() != 4 {
            return false;
        }
        if !(self.walls[0] == wall_collider(WallLocation::Left) && self.walls[1] == wall_collider(
            WallLocation::Right,
        ) && self.walls[2] == wall_collider(WallLocation::Bottom) && self.walls[3]
            == wall_collider(WallLocation::Top)) {
            return false;
        }
        proof {
            assert(self.walls@ =~= arena_walls());
        }
        let n: usize = self.enemies.len();
        let mut i: usize = 0;
        while i < n
            invariant
                i <= n,
                n == self.enemies@.len(),
                forall|j: int| 0 <= j < i ==> enemy_wf(#[trigger] self.enemies@[j]),
            decreases n - i,
        {
            let e: Enemy = self.enemies[i];
            if !(-VEL_LIMIT <= e.vel.x && e.vel.x <= VEL_LIMIT && -VEL_LIMIT <= e.vel.y
                && e.vel.y <= VEL_LIMIT && 1 <= e.hp.current && e.hp.current <= e.hp.max) {
                return false;
            }
            i = i + 1;
        }
        let m: usize = self.explosions.len();
        let mut k: usize = 0;
        while k < m
            invariant
                k <= m,
                m == self.explosions@.len(),
                forall|j: int| 0 <= j < k ==> explosion_wf(#[trigger] self.explosions@[j]),
            decreases m - k,
        {
            let x: Explosion = self.explosions[k];
            if !(x.timer.period == EXPLOSION_PERIOD && x.timer.elapsed < x.timer.period
                && x.frame < crate::explosion::EXPLOSION_LEN) {
                return false;
            }
            k = k + 1;
        }
        true
    }

    /// Decide at run time whether every enemy lies within `b` milliunits of
    /// the origin per axis — the range condition a tick asks for.
    pub fn enemies_within_check(&self, b: i64) -> (r: bool)
        requires
            0 <= b,
        ensures
            r == self.enemies_within(b as int),
    {
        let n: usize = self.enemies.len();
        let mut i: usize = 0;
        while i < n
            invariant
                0 <= b,
                i <= n,
                n == self.enemies@.len(),
                forall|j: int|
                    0 <= j < i ==> pos_within((#[trigger] self.enemies@[j]).pos, b as int),
            decreases n - i,
        {
            let e: Enemy = self.enemies[i];
            if !(-b <= e.pos.x && e.pos.x <= b && -b <= e.pos.y && e.pos.y <= b) {
                return false;
            }
            i = i + 1;
        }
        true
    }

    /// The score so far: one point per confirmed kill, never decreasing.
    /// The display layer renders exactly this integer.
    pub fn score(&self) -> (r: usize)
        ensures
            r == self.score,
    {
        self.score
    }

    /// The colliders taking part in collision checks this frame, in the
    /// declared order: the four walls, then the player, then every enemy.
    pub fn colliders(&self) -> (r: Vec<Collider>)
        requires
            self.walls@ == arena_walls(),
            in_coord_range(self.player_pos),
            forall|j: int|
                0 <= j < self.enemies@.len() ==> in_coord_range(
                    (#[trigger] self.enemies@[j]).pos,
                ),
        ensures
            r@ == colliders_spec(self.walls@, self.player_pos, self.enemies@),
            forall|k: int| 0 <= k < r@.len() ==> collider_wf(#[trigger] r@[k]),
    {
        let mut r: Vec<Collider> = Vec::new();
        r.push(wall_collider(WallLocation::Left));
        r.push(wall_collider(WallLocation::Right));
        r.push(wall_collider(WallLocation::Bottom));
        r.push(wall_collider(WallLocation::Top));
        r.push(
            Collider {
                pos: self.player_pos,
                size: Vec2 { x: PLAYER_SIZE_X, y: PLAYER_SIZE_Y },
            },
        );
        let ghost base: Seq<Collider> = r@;
        let n: usize = self.enemies.len();
        let mut i: usize = 0;
        while i < n
            invariant
                i <= n,
                n == self.enemies@.len(),
                forall|j: int|
                    0 <= j < self.enemies@.len() ==> in_coord_range(
                        (#[trigger] self.enemies@[j]).pos,
                    ),
                r@ == base + self.enemies@.take(i as int).map_values(
                    |e: Enemy| enemy_collider_spec(e),
                ),
            decreases n - i,
        {
            let e: Enemy = self.enemies[i];
            r.push(Collider { pos: e.pos, size: Vec2 { x: ENEMY_SIZE_X, y: ENEMY_SIZE_Y } });
            proof {
                assert(r@ =~= base + self.enemies@.take(i as int + 1).map_values(
                    |e: Enemy| enemy_collider_spec(e),
                ));
            }
            i = i + 1;
        }
        proof {
            assert(self.enemies@.take(n as int) =~= self.enemies@);
            assert(r@ =~= colliders_spec(self.walls@, self.player_pos, self.enemies@));
            assert forall|k: int| 0 <= k < r@.len() implies collider_wf(#[trigger] r@[k]) by {
                if k >= 5 {
                    assert(r@[k] == enemy_collider_spec(self.enemies@[k - 5]));
                    assert(in_coord_range(self.enemies@[k - 5].pos));
                }
            }
        }
        r
    }
}

/// The player's collider: its position and full extent.
pub open spec fn player_collider_spec(p: Vec2) -> Collider {
    Collider { pos: p, size: Vec2 { x: PLAYER_SIZE_X, y: PLAYER_SIZE_Y } }
}

/// An enemy's collider: its position and full extent.
pub open spec fn enemy_collider_spec(e: Enemy) -> Collider {
    Collider { pos: e.pos, size: Vec2 { x: ENEMY_SIZE_X, y: ENEMY_SIZE_Y } }
}

/// The frame's collider list: walls, then the player, then the enemies.
pub open spec fn colliders_spec(walls: Seq<Collider>, p: Vec2, enemies: Seq<Enemy>) -> Seq<
    Collider,
> {
    walls + seq![player_collider_spec(p)] + enemies.map_values(|e: Enemy| enemy_collider_spec(e))
}

/// What one tick does, from the old world `w0` to the new world `w1`, for
/// input `input` and `delta` microseconds of wall-clock time (the timers'
/// step). Reading top to bottom this is the frame in its declared order:
/// pending explosion requests spawn; the force field steers the enemies
/// around the old player position; the player moves; an attack resolves
/// combat against the moved player; the survivors integrate their
/// velocities; their velocities reflect off the frame's colliders; and the
/// explosion timers advance, dropping finished animations.
pub open spec fn tick_post(
    w0: World,
    w1: World,
    input: InputState,
    delta: int,
    ev: TickEvents,
) -> bool {
    let explosions_spawned = w0.explosions@ + w0.requests@.map_values(
        |r: ExplosionToSpawn| spawn_explosion_spec(r),
    );
    let enemies_magnet = magnet_spec(
        w0.player_pos,
        w0.enemies@,
        input.pull_held,
        input.push_held,
    );
    let moved = move_player_spec(w0.player_pos, input);
    let p1 = Vec2 { x: moved.0 as i64, y: moved.1 as i64 };
    let attack = input.attack_mouse || input.attack_key;
    let enemies_combat = if attack {
        combat_enemies(p1, enemies_magnet)
    } else {
        enemies_magnet
    };
    let enemies_moved = enemies_combat.map_values(|e: Enemy| integrate_spec(e));
    let cols = colliders_spec(w0.walls@, p1, enemies_moved);
    let enemies_final = enemies_moved.map_values(|e: Enemy| collide_enemy_spec(e, cols));
    &&& w1.player_pos == p1
    &&& w1.player_hp == w0.player_hp
    &&& w1.player_flip == input.pull_held
    &&& w1.enemies@ == enemies_final
    &&& w1.walls@ == w0.walls@
    &&& w1.requests@ == (if attack {
        combat_requests(p1, enemies_magnet)
    } else {
        Seq::<ExplosionToSpawn>::empty()
    })
    &&& w1.explosions@ == animate_all(explosions_spawned, delta)
    &&& w1.score == w0.score + (if attack {
        combat_kills(p1, enemies_magnet)
    } else {
        0int
    })
    &&& ev == (TickEvents {
        play_pull_sound: input.pull_just_pressed,
        play_push_sound: input.push_just_pressed,
    })
}

impl World {
    /// Advance the world by one fixed tick under `input`, with `delta`
    /// microseconds elapsed for the animation timers. Runs every system in
    /// the declared order — `tick_post` states the exact outcome — keeps the
    /// world well formed, and never lowers the score.
    pub fn tick(&mut self, input: &InputState, delta: u64) -> (ev: TickEvents)
        requires
            old(self).wf(),
            old(self).enemies_within(SIM_LIMIT as int),
            old(self).score + old(self).enemies@.len() <= usize::MAX,
            delta <= DELTA_LIMIT,
        ensures
            final(self).wf(),
            tick_post(*old(self), *final(self), *input, delta as int, ev),
            final(self).score >= old(self).score,
            final(self).enemies_within(SIM_LIMIT + VEL_LIMIT),
    {
        let ghost w0: World = *self;

        // Pending explosion requests from the previous frame become running
        // animations before anything else happens.
        explosion_to_spawn_system(&mut self.requests, &mut self.explosions);
        let ghost spawned: Seq<Explosion> = self.explosions@;

        // The force field steers enemies around the player's old position,
        // and the pull stance flips the player sprite.
        proof {
            assert forall|j: int| 0 <= j < self.enemies@.len() implies in_coord_range(
                (#[trigger] self.enemies@[j]).pos,
            ) by {
                assert(pos_within(w0.enemies@[j].pos, SIM_LIMIT as int));
            }
        }
        let ev = magnet(self.player_pos, &mut self.enemies, input);
        self.player_flip = input.pull_held;
        let ghost s_m: Seq<Enemy> = self.enemies@;
        proof {
            lemma_magnet_props(w0.player_pos, w0.enemies@, input.pull_held, input.push_held);
            assert forall|j: int| 0 <= j < s_m.len() implies enemy_wf(#[trigger] s_m[j])
                && pos_within(s_m[j].pos, SIM_LIMIT as int) && in_coord_range(s_m[j].pos) by {
                assert(enemy_wf(w0.enemies@[j]));
                assert(pos_within(w0.enemies@[j].pos, SIM_LIMIT as int));
            }
        }

        // The player moves by the held keys, clamped to the arena.
        move_player(&mut self.player_pos, input);
        let ghost p1: Vec2 = self.player_pos;

        // Combat resolves against the moved player.
        let hit_frame = combat(
            self.player_pos,
            &mut self.enemies,
            &mut self.requests,
            &mut self.score,
            input,
        );
        let ghost s_c: Seq<Enemy> = self.enemies@;
        proof {
            if hit_frame {
                lemma_combat_enemies_wf(p1, s_m, SIM_LIMIT as int);
                lemma_combat_counts(p1, s_m);
                assert(self.requests@ =~= combat_requests(p1, s_m));
            }
            assert(forall|j: int|
                0 <= j < s_c.len() ==> enemy_wf(#[trigger] s_c[j]) && pos_within(
                    s_c[j].pos,
                    SIM_LIMIT as int,
                ));
        }

        // Velocities integrate into positions.
        proof {
            assert forall|j: int| 0 <= j < s_c.len() implies in_coord_range(
                (#[trigger] s_c[j]).pos,
            ) && s_c[j].vel.x > i64::MIN && s_c[j].vel.y > i64::MIN by {
                assert(enemy_wf(s_c[j]) && pos_within(s_c[j].pos, SIM_LIMIT as int));
            }
        }
        apply_velocity(&mut self.enemies);
        let ghost s_v: Seq<Enemy> = self.enemies@;
        proof {
            lemma_integrate_props(s_c, SIM_LIMIT as int);
            assert forall|j: int| 0 <= j < s_v.len() implies enemy_wf(#[trigger] s_v[j])
                && pos_within(s_v[j].pos, SIM_LIMIT + VEL_LIMIT) && in_coord_range(
                s_v[j].pos,
            ) && s_v[j].vel.x > i64::MIN && s_v[j].vel.y > i64::MIN by {
                assert(s_v[j] == s_c.map_values(|e: Enemy| integrate_spec(e))[j]);
            }
        }

        // Enemy velocities reflect off the frame's colliders.
        let cols: Vec<Collider> = self.colliders();
        check_for_collisions(&mut self.enemies, &cols);
        proof {
            lemma_collide_enemies_props(s_v, cols@);
            assert forall|j: int| 0 <= j < self.enemies@.len() implies enemy_wf(
                #[trigger] self.enemies@[j],
            ) && pos_within(self.enemies@[j].pos, SIM_LIMIT + VEL_LIMIT) by {
                assert(self.enemies@[j] == s_v.map_values(
                    |e: Enemy| collide_enemy_spec(e, cols@),
                )[j]);
                assert(s_v.map_values(|e: Enemy| collide_enemy_spec(e, cols@))[j].pos
                    == s_v[j].pos);
            }
        }

        // Explosion timers advance; finished animations disappear.
        proof {
            assert forall|j: int| 0 <= j < spawned.len() implies timer_wf(
                (#[trigger] spawned[j]).timer,
            ) && spawned[j].frame < crate::explosion::EXPLOSION_LEN && spawned[j].timer.period
                == EXPLOSION_PERIOD && spawned[j].timer.elapsed + delta <= u64::MAX by {
                if j < w0.explosions@.len() {
                    assert(spawned[j] == w0.explosions@[j]);
                    assert(explosion_wf(w0.explosions@[j]));
                } else {
                    assert(spawned[j] == w0.requests@.map_values(
                        |r: ExplosionToSpawn| spawn_explosion_spec(r),
                    )[j - w0.explosions@.len()]);
                }
            }
        }
        explosion_animation_system(&mut self.explosions, delta);
        proof {
            lemma_animate_all_wf(spawned, delta as int);
            let explosions_spawned = w0.explosions@ + w0.requests@.map_values(
                |r: ExplosionToSpawn| spawn_explosion_spec(r),
            );
            assert(spawned =~= explosions_spawned);
            let enemies_magnet = magnet_spec(
                w0.player_pos,
                w0.enemies@,
                input.pull_held,
                input.push_held,
            );
            assert(s_m == enemies_magnet);
            let moved = move_player_spec(w0.player_pos, *input);
            let p1t = Vec2 { x: moved.0 as i64, y: moved.1 as i64 };
            assert(p1 == p1t);
            let attack = input.attack_mouse || input.attack_key;
            let enemies_combat = if attack {
                combat_enemies(p1t, enemies_magnet)
            } else {
                enemies_magnet
            };
            assert(s_c == enemies_combat);
            let enemies_moved = enemies_combat.map_values(|e: Enemy| integrate_spec(e));
            assert(s_v =~= enemies_moved);
            let cols_t = colliders_spec(w0.walls@, p1t, enemies_moved);
            assert(cols@ == cols_t);
            let enemies_final = enemies_moved.map_values(|e: Enemy| collide_enemy_spec(e, cols_t));
            assert(self.enemies@ =~= enemies_final);
            assert(self.explosions@ == animate_all(explosions_spawned, delta as int));
            if !attack {
                assert(self.requests@ =~= Seq::<ExplosionToSpawn>::empty());
            }
        }
        ev
    }
}

} // verus!
