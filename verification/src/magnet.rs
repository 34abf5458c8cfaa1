//! The magnet force field: while a magnet key is held, every enemy within
//! the field's radius of the player is steered toward (pull) or away from
//! (push) the player, faster the closer it stands.

use vstd::prelude::*;
use vstd::arithmetic::div_mod::{
    lemma_div_is_ordered, lemma_div_is_ordered_by_denominator, lemma_div_multiples_vanish,
    lemma_div_nonincreasing, lemma_fundamental_div_mod, lemma_mod_division_less_than_divisor,
    lemma_div_pos_is_pos,
};
use crate::arena::{BOTTOM_WALL, LEFT_WALL, RIGHT_WALL, TOP_WALL};
use crate::entities::{Enemy, EnemyTint, InputState, TickEvents, ENEMY_SPEED};
use crate::geom::{dist, distance, in_coord_range, point_in_radius, Vec2};
use crate::movement::{lemma_component_le_dist, steer_component, steer_component_spec};
use crate::num::abs_i;

verus! {

/// Radius of the force field around the player, in milliunits. Enemies at
/// this distance or farther are outside the field.
pub const MAGNET_RADIUS: u64 = 200_000;

/// Strength of the force field, in milliunits per second: the extra speed
/// given to an enemy standing exactly at the field's radius.
pub const MAGNET_FORCE: u64 = 50_000;

/// `MAGNET_FORCE * MAGNET_RADIUS`, the numerator of the falloff quotient.
pub const FORCE_TIMES_RADIUS: u64 = 10_000_000_000;

/// The extra speed the field gives an enemy at distance `d`, in milliunits
/// per second: `MAGNET_FORCE * (MAGNET_RADIUS / d)`, a hyperbolic falloff
/// that grows as the enemy closes in and equals `MAGNET_FORCE` exactly at
/// the radius.
pub open spec fn falloff(d: int) -> int
    recommends
        1 <= d,
{
    (FORCE_TIMES_RADIUS as int) / d
}

/// The speed the field steers an enemy at distance `d` to: base speed plus
/// the falloff term.
pub open spec fn field_target_speed(d: int) -> int
    recommends
        1 <= d,
{
    ENEMY_SPEED + falloff(d)
}

/// The extra speed the force field gives at distance `d`.
pub fn falloff_speed(d: u64) -> (r: u64)
    requires
        1 <= d,
    ensures
        r == falloff(d as int),
        r <= FORCE_TIMES_RADIUS,
{
    proof {
        lemma_div_nonincreasing(FORCE_TIMES_RADIUS as int, d as int);
        lemma_div_pos_is_pos(FORCE_TIMES_RADIUS as int, d as int);
    }
    FORCE_TIMES_RADIUS / d
}

/// The falloff never increases with distance: of two enemies in the field,
/// the nearer one is never steered with less extra speed.
pub proof fn lemma_falloff_antitone(d1: int, d2: int)
    requires
        1 <= d1 <= d2,
    ensures
        falloff(d1) >= falloff(d2),
{
    lemma_div_is_ordered_by_denominator(FORCE_TIMES_RADIUS as int, d1, d2);
}

/// Within most of the field the falloff strictly decreases with distance:
/// whenever `d1 * d2` does not exceed the falloff numerator — in particular
/// everywhere up to 100 units out — the nearer distance gets strictly more
/// extra speed. (Whole-milliunit rounding ties the remaining far pairs, e.g.
/// distances of 199 999 and 200 000 milliunits both fall off to 50 000.)
pub proof fn lemma_falloff_strictly_decreasing(d1: int, d2: int)
    requires
        1 <= d1 < d2,
        d1 * d2 <= FORCE_TIMES_RADIUS,
    ensures
        falloff(d1) > falloff(d2),
{
    let k = FORCE_TIMES_RADIUS as int;
    let q2 = k / d2;
    assert(q2 >= d1) by {
        lemma_div_is_ordered(d1 * d2, k, d2);
        lemma_div_multiples_vanish(d1, d2);
        assert(d1 * d2 == d2 * d1) by (nonlinear_arith);
    }
    assert(k >= q2 * d2) by {
        lemma_fundamental_div_mod(k, d2);
        lemma_mod_division_less_than_divisor(k, d2);
        assert(d2 * q2 == q2 * d2) by (nonlinear_arith);
    }
    assert((q2 + 1) * d1 <= q2 * d2) by (nonlinear_arith)
        requires
            q2 >= d1,
            d1 >= 1,
            d2 >= d1 + 1,
    ;
    assert(k / d1 >= q2 + 1) by {
        lemma_div_is_ordered((q2 + 1) * d1, k, d1);
        lemma_div_multiples_vanish(q2 + 1, d1);
        assert((q2 + 1) * d1 == d1 * (q2 + 1)) by (nonlinear_arith);
    }
}

/// At the field's radius exactly, the falloff term equals the field's
/// strength — it does not vanish; the field ignores an enemy there only
/// because the radius test is strict.
pub proof fn lemma_falloff_at_radius()
    ensures
        falloff(MAGNET_RADIUS as int) == MAGNET_FORCE,
{
}

/// An enemy after one application of the force field. An enemy at the
/// radius or beyond is untouched, and so is one standing exactly on the
/// player: a zero offset has no direction to steer along and the falloff
/// quotient has no value, so the policy here is to skip it. Otherwise the enemy
/// is steered along the unit offset away from (push) or toward (pull) the
/// player at the target speed, but each velocity axis is written only if
/// the position projected by that component stays strictly inside the
/// walls; if either axis was written, the enemy takes the field's tint.
pub open spec fn pull_push_spec(p: Vec2, e: Enemy, is_push: bool) -> Enemy {
    let d = dist(p, e.pos);
    if !(0 < d < MAGNET_RADIUS) {
        e
    } else {
        let t = field_target_speed(d);
        let dx = if is_push {
            e.pos.x - p.x
        } else {
            p.x - e.pos.x
        };
        let dy = if is_push {
            e.pos.y - p.y
        } else {
            p.y - e.pos.y
        };
        let tx = steer_component_spec(dx, t, d);
        let ty = steer_component_spec(dy, t, d);
        let write_x = LEFT_WALL < e.pos.x + tx < RIGHT_WALL;
        let write_y = BOTTOM_WALL < e.pos.y + ty < TOP_WALL;
        if !write_x && !write_y {
            e
        } else {
            Enemy {
                vel: Vec2 {
                    x: if write_x {
                        tx as i64
                    } else {
                        e.vel.x
                    },
                    y: if write_y {
                        ty as i64
                    } else {
                        e.vel.y
                    },
                },
                tint: if is_push {
                    EnemyTint::Push
                } else {
                    EnemyTint::Pull
                },
                ..e
            }
        }
    }
}

/// The force field never touches an enemy at or beyond its radius: no
/// velocity write, no tint change. In particular an enemy at the radius
/// exactly gets no extra speed at all.
pub proof fn lemma_force_field_outside_radius(p: Vec2, e: Enemy, is_push: bool)
    requires
        dist(p, e.pos) >= MAGNET_RADIUS,
    ensures
        pull_push_spec(p, e, is_push) == e,
{
}

/// The force field preserves an enemy's position and health, and never
/// steers it past the simulation's speed cap.
pub proof fn lemma_pull_push_wf(p: Vec2, e: Enemy, is_push: bool)
    ensures
        pull_push_spec(p, e, is_push).pos == e.pos,
        pull_push_spec(p, e, is_push).hp == e.hp,
        crate::entities::vel_in_limit(e.vel) ==> crate::entities::vel_in_limit(
            pull_push_spec(p, e, is_push).vel,
        ),
{
    let d = dist(p, e.pos);
    if 0 < d < MAGNET_RADIUS {
        lemma_div_nonincreasing(FORCE_TIMES_RADIUS as int, d);
        lemma_div_pos_is_pos(FORCE_TIMES_RADIUS as int, d);
        let t = field_target_speed(d);
        lemma_component_le_dist(p, e.pos, d);
        lemma_steer_bounded(p.x - e.pos.x, t, d);
        lemma_steer_bounded(e.pos.x - p.x, t, d);
        lemma_steer_bounded(p.y - e.pos.y, t, d);
        lemma_steer_bounded(e.pos.y - p.y, t, d);
    }
}

/// A steered component never exceeds the target speed in magnitude.
proof fn lemma_steer_bounded(delta: int, t: int, d: int)
    requires
        1 <= d,
        0 <= t,
        abs_i(delta) <= d,
    ensures
        abs_i(steer_component_spec(delta, t, d)) <= t,
{
    let m = delta * t * 99;
    let n = abs_i(m);
    let dd = d * 100;
    if m >= 0 {
        lemma_div_pos_is_pos(m, dd);
    } else {
        lemma_div_pos_is_pos(-m, dd);
    }
    assert(abs_i(steer_component_spec(delta, t, d)) == n / dd);
    assert(n <= dd * t) by (nonlinear_arith)
        requires
            n == abs_i(delta * t * 99),
            dd == d * 100,
            abs_i(delta) <= d,
            0 <= t,
            1 <= d,
    ;
    vstd::arithmetic::div_mod::lemma_multiply_divide_le(n, dd, t);
}

/// Apply the force field to one enemy, pulling it toward the player or
/// pushing it away.
pub fn pull_push_enemy(player_pos: Vec2, enemy: &mut Enemy, is_push: bool)
    requires
        in_coord_range(player_pos),
        in_coord_range(old(enemy).pos),
    ensures
        *final(enemy) == pull_push_spec(player_pos, *old(enemy), is_push),
{
    proof {
        crate::geom::lemma_dist_symm(enemy.pos, player_pos);
    }
    if !point_in_radius(enemy.pos, player_pos, MAGNET_RADIUS) {
        return;
    }
    let d: u64 = distance(player_pos, enemy.pos);
    if d == 0 {
        return;
    }
    let target_speed: u64 = ENEMY_SPEED as u64 + falloff_speed(d);
    proof {
        lemma_component_le_dist(player_pos, enemy.pos, d as int);
    }
    let dx: i64 = if is_push {
        enemy.pos.x - player_pos.x
    } else {
        player_pos.x - enemy.pos.x
    };
    let dy: i64 = if is_push {
        enemy.pos.y - player_pos.y
    } else {
        player_pos.y - enemy.pos.y
    };
    let tx: i64 = steer_component(dx, target_speed, d);
    let ty: i64 = steer_component(dy, target_speed, d);
    let mut moved = false;
    if enemy.pos.x + tx > LEFT_WALL && enemy.pos.x + tx < RIGHT_WALL {
        enemy.vel.x = tx;
        moved = true;
    }
    if enemy.pos.y + ty > BOTTOM_WALL && enemy.pos.y + ty < TOP_WALL {
        enemy.vel.y = ty;
        moved = true;
    }
    if moved {
        enemy.tint = if is_push {
            EnemyTint::Push
        } else {
            EnemyTint::Pull
        };
    }
}

/// An enemy with its tint reset to the plain color.
pub open spec fn reset_tint_spec(e: Enemy) -> Enemy {
    Enemy { tint: EnemyTint::Normal, ..e }
}

/// The enemies after one frame of the force-field system: every tint is
/// reset; then, if the pull key is held, every enemy takes one pull pass;
/// then, if the push key is held, every enemy takes one push pass. Holding
/// both keys applies push after pull — push overrides pull.
pub open spec fn magnet_spec(p: Vec2, s: Seq<Enemy>, pull: bool, push: bool) -> Seq<Enemy> {
    let s0 = s.map_values(|e: Enemy| reset_tint_spec(e));
    let s1 = if pull {
        s0.map_values(|e: Enemy| pull_push_spec(p, e, false))
    } else {
        s0
    };
    if push {
        s1.map_values(|e: Enemy| pull_push_spec(p, e, true))
    } else {
        s1
    }
}

/// One frame of the force field moves no enemy, hurts no enemy, and steers
/// none past the speed cap: only velocities and tints change.
pub proof fn lemma_magnet_props(p: Vec2, s: Seq<Enemy>, pull: bool, push: bool)
    ensures
        magnet_spec(p, s, pull, push).len() == s.len(),
        forall|j: int|
            0 <= j < s.len() ==> (#[trigger] magnet_spec(p, s, pull, push)[j]).pos == s[j].pos
                && magnet_spec(p, s, pull, push)[j].hp == s[j].hp && (
            crate::entities::vel_in_limit(s[j].vel) ==> crate::entities::vel_in_limit(
                magnet_spec(p, s, pull, push)[j].vel,
            )),
{
    let s0 = s.map_values(|e: Enemy| reset_tint_spec(e));
    let s1 = if pull {
        s0.map_values(|e: Enemy| pull_push_spec(p, e, false))
    } else {
        s0
    };
    let s2 = if push {
        s1.map_values(|e: Enemy| pull_push_spec(p, e, true))
    } else {
        s1
    };
    assert forall|j: int| 0 <= j < s.len() implies (#[trigger] magnet_spec(p, s, pull, push)[j]).pos
        == s[j].pos && magnet_spec(p, s, pull, push)[j].hp == s[j].hp && (
    crate::entities::vel_in_limit(s[j].vel) ==> crate::entities::vel_in_limit(
        magnet_spec(p, s, pull, push)[j].vel,
    )) by {
        assert(s0[j] == reset_tint_spec(s[j]));
        lemma_pull_push_wf(p, s0[j], false);
        if pull {
            assert(s1[j] == pull_push_spec(p, s0[j], false));
        }
        lemma_pull_push_wf(p, s1[j], true);
        if push {
            assert(s2[j] == pull_push_spec(p, s1[j], true));
        }
        assert(magnet_spec(p, s, pull, push)[j] == s2[j]);
    }
}

/// One frame of the force-field system: reset every enemy's tint, apply a
/// pull pass while the pull key is held and a push pass while the push key
/// is held, and report which magnet sounds the key edges ask for.
pub fn magnet(player_pos: Vec2, enemies: &mut Vec<Enemy>, input: &InputState) -> (ev: TickEvents)
    requires
        in_coord_range(player_pos),
        forall|j: int|
            0 <= j < old(enemies)@.len() ==> in_coord_range(#[trigger] old(enemies)@[j].pos),
    ensures
        final(enemies)@ == magnet_spec(
            player_pos,
            old(enemies)@,
            input.pull_held,
            input.push_held,
        ),
        ev == (TickEvents {
            play_pull_sound: input.pull_just_pressed,
            play_push_sound: input.push_just_pressed,
        }),
{
    let ghost orig: Seq<Enemy> = enemies@;
    reset_tints(enemies);
    let ghost s0 = orig.map_values(|e: Enemy| reset_tint_spec(e));
    proof {
        assert(forall|j: int|
            0 <= j < s0.len() ==> in_coord_range(#[trigger] s0[j].pos));
    }
    if input.pull_held {
        pull_push_pass(player_pos, enemies, false);
    }
    let ghost s1 = if input.pull_held {
        s0.map_values(|e: Enemy| pull_push_spec(player_pos, e, false))
    } else {
        s0
    };
    proof {
        assert(forall|j: int| 0 <= j < s1.len() ==> in_coord_range(#[trigger] s1[j].pos)) by {
            if input.pull_held {
                assert(forall|j: int|
                    0 <= j < s0.len() ==> (#[trigger] s1[j]) == pull_push_spec(
                        player_pos,
                        s0[j],
                        false,
                    ) && s1[j].pos == s0[j].pos) by {
                    assert forall|j: int| 0 <= j < s0.len() implies (#[trigger] s1[j])
                        == pull_push_spec(player_pos, s0[j], false) && s1[j].pos == s0[j].pos by {
                        lemma_pull_push_wf(player_pos, s0[j], false);
                    }
                }
            }
        }
    }
    if input.push_held {
        pull_push_pass(player_pos, enemies, true);
    }
    TickEvents {
        play_pull_sound: input.pull_just_pressed,
        play_push_sound: input.push_just_pressed,
    }
}

/// Reset every enemy's tint to the plain color.
fn reset_tints(enemies: &mut Vec<Enemy>)
    ensures
        final(enemies)@ == old(enemies)@.map_values(|e: Enemy| reset_tint_spec(e)),
{
    let ghost orig: Seq<Enemy> = enemies@;
    let n: usize = enemies.len();
    let mut i: usize = 0;
    while i < n
        invariant
            i <= n,
            n == orig.len(),
            enemies@.len() == orig.len(),
            forall|j: int| 0 <= j < i ==> enemies@[j] == reset_tint_spec(#[trigger] orig[j]),
            forall|j: int| i <= j < orig.len() ==> enemies@[j] == #[trigger] orig[j],
        decreases n - i,
    {
        let e: Enemy = enemies[i];
        enemies.set(i, Enemy { tint: EnemyTint::Normal, ..e });
        i = i + 1;
    }
    assert(enemies@ =~= orig.map_values(|e: Enemy| reset_tint_spec(e)));
}

/// Apply one force-field pass (pull or push) to every enemy.
fn pull_push_pass(player_pos: Vec2, enemies: &mut Vec<Enemy>, is_push: bool)
    requires
        in_coord_range(player_pos),
        forall|j: int|
            0 <= j < old(enemies)@.len() ==> in_coord_range(#[trigger] old(enemies)@[j].pos),
    ensures
        final(enemies)@ == old(enemies)@.map_values(
            |e: Enemy| pull_push_spec(player_pos, e, is_push),
        ),
{
    let ghost orig: Seq<Enemy> = enemies@;
    let n: usize = enemies.len();
    let mut i: usize = 0;
    while i < n
        invariant
            i <= n,
            n == orig.len(),
            enemies@.len() == orig.len(),
            in_coord_range(player_pos),
            forall|j: int| 0 <= j < orig.len() ==> in_coord_range(#[trigger] orig[j].pos),
            forall|j: int|
                0 <= j < i ==> enemies@[j] == pull_push_spec(
                    player_pos,
                    #[trigger] orig[j],
                    is_push,
                ),
            forall|j: int| i <= j < orig.len() ==> enemies@[j] == #[trigger] orig[j],
        decreases n - i,
    {
        let mut e: Enemy = enemies[i];
        proof {
            assert(e == orig[i as int]);
            assert(in_coord_range(orig[i as int].pos));
        }
        pull_push_enemy(player_pos, &mut e, is_push);
        enemies.set(i, e);
        i = i + 1;
    }
    assert(enemies@ =~= orig.map_values(|e: Enemy| pull_push_spec(player_pos, e, is_push)));
}

} // verus!
