//! Movement: the player's direct, input-driven motion clamped to the arena,
//! enemy steering toward the player, and the per-frame velocity integration.

use vstd::prelude::*;
use vstd::arithmetic::div_mod::lemma_multiply_divide_le;
use crate::arena::{BOTTOM_WALL, LEFT_WALL, RIGHT_WALL, TOP_WALL};
use crate::entities::{
    Enemy, InputState, ENEMY_SPEED, VELOCITY_DRAG_DEN, VELOCITY_DRAG_NUM, VEL_LIMIT,
};
use crate::geom::{dist, dist2, distance, in_coord_range, pos_within, Vec2};
use crate::num::{abs64, abs_i, clamp64, clamp_i, div_trunc, div_trunc_i64};

verus! {

/// Player speed, in milliunits per second.
pub const PLAYER_SPEED: i64 = 300_000;

/// How close the player may get to a wall, in milliunits.
pub const PLAYER_PADDING: i64 = 10_000;

/// Fixed physics steps per second; one tick advances time by 1/60 s.
pub const TICKS_PER_SECOND: u64 = 60;

/// How far the player moves along an active axis in one tick:
/// `PLAYER_SPEED / TICKS_PER_SECOND` milliunits.
pub const PLAYER_STEP: i64 = 5_000;

/// Leftmost x the player's center may take: the left wall plus half the wall
/// thickness, half the player size, and the padding.
pub const PLAYER_LEFT_BOUND: i64 = -420_000;

/// Rightmost x the player's center may take.
pub const PLAYER_RIGHT_BOUND: i64 = 420_000;

/// Lowest y the player's center may take.
pub const PLAYER_BOTTOM_BOUND: i64 = -270_000;

/// Highest y the player's center may take.
pub const PLAYER_TOP_BOUND: i64 = 270_000;

/// The player's position within the rectangle its center is confined to.
pub open spec fn player_in_bounds(pos: Vec2) -> bool {
    &&& PLAYER_LEFT_BOUND <= pos.x <= PLAYER_RIGHT_BOUND
    &&& PLAYER_BOTTOM_BOUND <= pos.y <= PLAYER_TOP_BOUND
}

/// Where one tick of input moves the player standing at `pos`: each held
/// direction contributes one axis step (opposite directions cancel; diagonal
/// movement takes a full step on both axes), and each axis is then clamped
/// to the player's bounds independently.
pub open spec fn move_player_spec(pos: Vec2, input: InputState) -> (int, int) {
    let dx = (if input.right { 1int } else { 0int }) - (if input.left { 1int } else { 0int });
    let dy = (if input.up { 1int } else { 0int }) - (if input.down { 1int } else { 0int });
    (
        clamp_i(pos.x + dx * PLAYER_STEP, PLAYER_LEFT_BOUND as int, PLAYER_RIGHT_BOUND as int),
        clamp_i(pos.y + dy * PLAYER_STEP, PLAYER_BOTTOM_BOUND as int, PLAYER_TOP_BOUND as int),
    )
}

/// Move the player one tick by the held direction keys, clamping each axis
/// to the arena so the player never leaves it, whatever the inputs and the
/// starting point.
pub fn move_player(pos: &mut Vec2, input: &InputState)
    requires
        in_coord_range(*old(pos)),
    ensures
        final(pos).x == move_player_spec(*old(pos), *input).0,
        final(pos).y == move_player_spec(*old(pos), *input).1,
        player_in_bounds(*final(pos)),
{
    let mut dx: i64 = 0;
    let mut dy: i64 = 0;
    if input.left {
        dx = dx - 1;
    }
    if input.right {
        dx = dx + 1;
    }
    if input.up {
        dy = dy + 1;
    }
    if input.down {
        dy = dy - 1;
    }
    let new_x: i64 = pos.x + dx * PLAYER_STEP;
    let new_y: i64 = pos.y + dy * PLAYER_STEP;
    pos.x = clamp64(new_x, PLAYER_LEFT_BOUND, PLAYER_RIGHT_BOUND);
    pos.y = clamp64(new_y, PLAYER_BOTTOM_BOUND, PLAYER_TOP_BOUND);
}

/// One steered velocity component: the fraction `delta / d` of the target
/// speed `t`, scaled by drag, rounded toward zero. `delta` is the component
/// of the offset toward the target, `d` the full distance.
pub open spec fn steer_component_spec(delta: int, t: int, d: int) -> int
    recommends
        d >= 1,
{
    div_trunc(delta * t * (VELOCITY_DRAG_NUM as int), d * (VELOCITY_DRAG_DEN as int))
}

/// Compute one steered velocity component. The result never exceeds the
/// target speed in magnitude, since `|delta| <= d` and drag only shrinks it.
pub fn steer_component(delta: i64, t: u64, d: u64) -> (r: i64)
    requires
        1 <= d,
        delta > i64::MIN,
        abs_i(delta as int) <= d,
        t <= 20_000_000_000,
    ensures
        r == steer_component_spec(delta as int, t as int, d as int),
        abs_i(r as int) <= t,
{
    let ad: u64 = abs64(delta);
    proof {
        assert(ad * t <= 18_446_744_073_709_551_615 * 20_000_000_000) by (nonlinear_arith)
            requires
                0 <= ad <= 18_446_744_073_709_551_615,
                0 <= t <= 20_000_000_000,
        ;
    }
    let num: u128 = (ad as u128) * (t as u128) * (VELOCITY_DRAG_NUM as u128);
    let den: u128 = (d as u128) * (VELOCITY_DRAG_DEN as u128);
    proof {
        assert((ad as u128) * (t as u128) * 99 <= (d as u128) * 100 * (t as u128))
            by (nonlinear_arith)
            requires
                0 <= ad <= d,
                0 <= t,
        ;
        lemma_multiply_divide_le(num as int, den as int, t as int);
    }
    let q: u128 = num / den;
    let qi: i64 = q as i64;
    proof {
        if delta >= 0 {
            assert(delta * t * 99 == num) by (nonlinear_arith)
                requires
                    num == ad * t * 99,
                    ad == delta,
                    delta >= 0,
            ;
        } else {
            assert(-(delta * t * 99) == num) by (nonlinear_arith)
                requires
                    num == ad * t * 99,
                    ad == -delta,
                    delta < 0,
            ;
            assert(delta * t * 99 <= 0) by (nonlinear_arith)
                requires
                    delta < 0,
                    t >= 0,
            ;
        }
    }
    if delta >= 0 {
        qi
    } else {
        -qi
    }
}

/// An enemy after one tick of velocity integration: the velocity, in
/// milliunits per second, moves the position by a sixtieth, rounded toward
/// zero; everything else is unchanged.
pub open spec fn integrate_spec(e: Enemy) -> Enemy {
    Enemy {
        pos: Vec2 {
            x: (e.pos.x + div_trunc(e.vel.x as int, TICKS_PER_SECOND as int)) as i64,
            y: (e.pos.y + div_trunc(e.vel.y as int, TICKS_PER_SECOND as int)) as i64,
        },
        ..e
    }
}

/// Integration moves each enemy by at most a speed-cap's worth of
/// milliunits per axis and changes nothing else: a well-formed enemy within
/// a coordinate bound stays well formed within the bound widened by the cap.
pub proof fn lemma_integrate_props(s: Seq<Enemy>, b: int)
    requires
        0 <= b,
        b + VEL_LIMIT <= i64::MAX,
        forall|j: int|
            0 <= j < s.len() ==> crate::entities::enemy_wf(#[trigger] s[j]) && pos_within(
                s[j].pos,
                b,
            ),
    ensures
        s.map_values(|e: Enemy| integrate_spec(e)).len() == s.len(),
        forall|j: int|
            #![trigger s[j]]
            0 <= j < s.len() ==> {
                let m = s.map_values(|e: Enemy| integrate_spec(e))[j];
                m.vel == s[j].vel && m.hp == s[j].hp && m.tint == s[j].tint
                    && crate::entities::enemy_wf(m) && pos_within(m.pos, b + VEL_LIMIT)
            },
{
    assert forall|j: int| #![trigger s[j]] 0 <= j < s.len() implies {
        let m = s.map_values(|e: Enemy| integrate_spec(e))[j];
        m.vel == s[j].vel && m.hp == s[j].hp && m.tint == s[j].tint
            && crate::entities::enemy_wf(m) && pos_within(m.pos, b + VEL_LIMIT)
    } by {
        assert(s.map_values(|e: Enemy| integrate_spec(e))[j] == integrate_spec(s[j]));
        crate::num::lemma_div_trunc_abs(s[j].vel.x as int, TICKS_PER_SECOND as int);
        crate::num::lemma_div_trunc_abs(s[j].vel.y as int, TICKS_PER_SECOND as int);
    }
}

/// Apply one tick of movement to every enemy: position plus velocity times
/// the fixed timestep.
pub fn apply_velocity(enemies: &mut Vec<Enemy>)
    requires
        forall|j: int|
            0 <= j < old(enemies)@.len() ==> in_coord_range(
                #[trigger] old(enemies)@[j].pos,
            ) && old(enemies)@[j].vel.x > i64::MIN && old(enemies)@[j].vel.y > i64::MIN,
    ensures
        final(enemies)@ == old(enemies)@.map_values(|e: Enemy| integrate_spec(e)),
{
    let ghost orig: Seq<Enemy> = enemies@;
    let n: usize = enemies.len();
    let mut i: usize = 0;
    while i < n
        invariant
            i <= n,
            n == orig.len(),
            enemies@.len() == orig.len(),
            forall|j: int|
                0 <= j < orig.len() ==> in_coord_range(#[trigger] orig[j].pos)
                    && orig[j].vel.x > i64::MIN && orig[j].vel.y > i64::MIN,
            forall|j: int| 0 <= j < i ==> enemies@[j] == integrate_spec(#[trigger] orig[j]),
            forall|j: int| i <= j < orig.len() ==> enemies@[j] == #[trigger] orig[j],
        decreases n - i,
    {
        let e: Enemy = enemies[i];
        proof {
            assert(e == orig[i as int]);
            assert(in_coord_range(orig[i as int].pos));
        }
        let sx: i64 = div_trunc_i64(e.vel.x, TICKS_PER_SECOND);
        let sy: i64 = div_trunc_i64(e.vel.y, TICKS_PER_SECOND);
        let moved = Enemy {
            pos: Vec2 { x: e.pos.x + sx, y: e.pos.y + sy },
            ..e
        };
        enemies.set(i, moved);
        i = i + 1;
    }
    assert(enemies@ =~= orig.map_values(|e: Enemy| integrate_spec(e)));
}

/// An enemy after one pass of plain seeking: steered straight toward the
/// player at base speed, each axis written only if the position projected by
/// that component stays strictly inside the walls. An enemy standing exactly
/// on the player is left alone (no direction to steer along).
pub open spec fn seek_spec(p: Vec2, e: Enemy) -> Enemy {
    let d = dist(p, e.pos);
    if d == 0 {
        e
    } else {
        let tx = steer_component_spec(p.x - e.pos.x, ENEMY_SPEED as int, d);
        let ty = steer_component_spec(p.y - e.pos.y, ENEMY_SPEED as int, d);
        Enemy {
            vel: Vec2 {
                x: if LEFT_WALL < e.pos.x + tx < RIGHT_WALL {
                    tx as i64
                } else {
                    e.vel.x
                },
                y: if BOTTOM_WALL < e.pos.y + ty < TOP_WALL {
                    ty as i64
                } else {
                    e.vel.y
                },
            },
            ..e
        }
    }
}

/// Steer every enemy straight toward the player at base speed, leaving any
/// axis alone whose projected position would leave the arena.
pub fn move_enemies_to_player(player_pos: Vec2, enemies: &mut Vec<Enemy>)
    requires
        in_coord_range(player_pos),
        forall|j: int| 0 <= j < old(enemies)@.len() ==> in_coord_range(#[trigger] old(enemies)@[j].pos),
    ensures
        final(enemies)@ == old(enemies)@.map_values(|e: Enemy| seek_spec(player_pos, e)),
{
    let ghost orig: Seq<Enemy> = enemies@;
    let n: usize = enemies.len();
    let mut i: usize = 0;
    while i < n
        invariant
            i <= n,
            n == orig.len(),
            enemies@.len() == orig.len(),
            in_coord_range(player_pos),
            forall|j: int| 0 <= j < orig.len() ==> in_coord_range(#[trigger] orig[j].pos),
            forall|j: int|
                0 <= j < i ==> enemies@[j] == seek_spec(player_pos, #[trigger] orig[j]),
            forall|j: int| i <= j < orig.len() ==> enemies@[j] == #[trigger] orig[j],
        decreases n - i,
    {
        let e: Enemy = enemies[i];
        proof {
            assert(e == orig[i as int]);
            assert(in_coord_range(orig[i as int].pos));
        }
        let steered = seek_enemy(player_pos, e);
        enemies.set(i, steered);
        i = i + 1;
    }
    assert(enemies@ =~= orig.map_values(|e: Enemy| seek_spec(player_pos, e)));
}

/// Steer one enemy toward the player at base speed.
fn seek_enemy(player_pos: Vec2, e: Enemy) -> (r: Enemy)
    requires
        in_coord_range(player_pos),
        in_coord_range(e.pos),
    ensures
        r == seek_spec(player_pos, e),
{
    let d: u64 = distance(player_pos, e.pos);
    if d == 0 {
        return e;
    }
    proof {
        lemma_component_le_dist(player_pos, e.pos, d as int);
    }
    let tx: i64 = steer_component(player_pos.x - e.pos.x, ENEMY_SPEED as u64, d);
    let ty: i64 = steer_component(player_pos.y - e.pos.y, ENEMY_SPEED as u64, d);
    let mut vel: Vec2 = e.vel;
    if e.pos.x + tx > LEFT_WALL && e.pos.x + tx < RIGHT_WALL {
        vel.x = tx;
    }
    if e.pos.y + ty > BOTTOM_WALL && e.pos.y + ty < TOP_WALL {
        vel.y = ty;
    }
    Enemy { vel, ..e }
}

/// Each coordinate offset between two points is at most their distance:
/// the distance is the rounded-down Euclidean norm of the offset, and a
/// whole-number component never exceeds it.
pub proof fn lemma_component_le_dist(a: Vec2, b: Vec2, d: int)
    requires
        d == dist(a, b),
    ensures
        abs_i(a.x - b.x) <= d,
        abs_i(a.y - b.y) <= d,
{
    crate::geom::lemma_dist_is_sqrt(a, b);
    let ax = abs_i(a.x - b.x);
    let ay = abs_i(a.y - b.y);
    assert(ax * ax <= dist2(a, b) && ay * ay <= dist2(a, b)) by (nonlinear_arith)
        requires
            ax == abs_i(a.x - b.x),
            ay == abs_i(a.y - b.y),
            dist2(a, b) == (a.x - b.x) * (a.x - b.x) + (a.y - b.y) * (a.y - b.y),
    ;
    if ax > d {
        assert((d + 1) * (d + 1) <= ax * ax) by (nonlinear_arith)
            requires
                0 <= d,
                d + 1 <= ax,
        ;
    }
    if ay > d {
        assert((d + 1) * (d + 1) <= ay * ay) by (nonlinear_arith)
            requires
                0 <= d,
                d + 1 <= ay,
        ;
    }
}

} // verus!
