//! Collision resolution: axis-aligned box overlap with side classification
//! by the minimum-penetration rule, and the wall bounce that reflects an
//! enemy's velocity — but only a component that points into the surface it
//! hit. The response is velocity-only: positions are never corrected, so a
//! box may stay overlapped for several frames; that is an accepted
//! approximation.

use vstd::prelude::*;
use crate::entities::{Collider, Enemy, ENEMY_SIZE_X, ENEMY_SIZE_Y};
use crate::geom::{in_coord_range, Vec2};
use crate::num::abs_i;

verus! {

/// Largest collider extent per axis the collision routines accept.
pub const SIZE_LIMIT: i64 = 1_000_000_000;

/// The side of the stationary box `b` that the moving box `a` overlaps:
/// `Left` means `a` sticks out past `b`'s left edge, and so on; `Inside`
/// means `a` does not stick out past either edge picked for the axis of
/// least penetration.
#[derive(Clone, Copy, PartialEq, Eq, Structural, Debug)]
pub enum Collision {
    Left,
    Right,
    Top,
    Bottom,
    Inside,
}

/// A collider's extent is nonnegative and within the accepted limit, and
/// its center is in coordinate range.
pub open spec fn collider_wf(c: Collider) -> bool {
    &&& in_coord_range(c.pos)
    &&& 0 <= c.size.x <= SIZE_LIMIT
    &&& 0 <= c.size.y <= SIZE_LIMIT
}

/// Which side of box `b` box `a` overlaps, if the two overlap at all.
/// Boxes are given by center and full extent; edges that merely touch do
/// not overlap. Per axis, `a` is classified by whether it sticks out past
/// `b`'s low edge, past its high edge, or not at all; of the two axes the
/// one with the strictly smaller penetration depth wins, the x axis on a
/// tie, and if `a` sticks out on neither axis the overlap is `Inside`.
pub open spec fn collide_spec(a_pos: Vec2, a_size: Vec2, b_pos: Vec2, b_size: Vec2) -> Option<
    Collision,
> {
    let a_min_x = a_pos.x - a_size.x / 2;
    let a_max_x = a_pos.x + a_size.x / 2;
    let a_min_y = a_pos.y - a_size.y / 2;
    let a_max_y = a_pos.y + a_size.y / 2;
    let b_min_x = b_pos.x - b_size.x / 2;
    let b_max_x = b_pos.x + b_size.x / 2;
    let b_min_y = b_pos.y - b_size.y / 2;
    let b_max_y = b_pos.y + b_size.y / 2;
    if !(a_min_x < b_max_x && a_max_x > b_min_x && a_min_y < b_max_y && a_max_y > b_min_y) {
        None
    } else {
        let x_side: Option<(Collision, int)> = if a_min_x < b_min_x && a_max_x > b_min_x
            && a_max_x < b_max_x {
            Some((Collision::Left, a_max_x - b_min_x))
        } else if a_min_x > b_min_x && a_min_x < b_max_x && a_max_x > b_max_x {
            Some((Collision::Right, b_max_x - a_min_x))
        } else {
            None
        };
        let y_side: Option<(Collision, int)> = if a_min_y < b_min_y && a_max_y > b_min_y
            && a_max_y < b_max_y {
            Some((Collision::Bottom, a_max_y - b_min_y))
        } else if a_min_y > b_min_y && a_min_y < b_max_y && a_max_y > b_max_y {
            Some((Collision::Top, b_max_y - a_min_y))
        } else {
            None
        };
        match (x_side, y_side) {
            (None, None) => Some(Collision::Inside),
            (Some((xc, xd)), None) => Some(xc),
            (None, Some((yc, yd))) => Some(yc),
            (Some((xc, xd)), Some((yc, yd))) => if yd < xd {
                Some(yc)
            } else {
                Some(xc)
            },
        }
    }
}

/// Classify the overlap of box `a` with box `b`.
pub fn collide(a_pos: Vec2, a_size: Vec2, b_pos: Vec2, b_size: Vec2) -> (r: Option<Collision>)
    requires
        in_coord_range(a_pos),
        in_coord_range(b_pos),
        0 <= a_size.x <= SIZE_LIMIT,
        0 <= a_size.y <= SIZE_LIMIT,
        0 <= b_size.x <= SIZE_LIMIT,
        0 <= b_size.y <= SIZE_LIMIT,
    ensures
        r == collide_spec(a_pos, a_size, b_pos, b_size),
{
    let a_half_x: i64 = ((a_size.x as u64) / 2) as i64;
    let a_half_y: i64 = ((a_size.y as u64) / 2) as i64;
    let b_half_x: i64 = ((b_size.x as u64) / 2) as i64;
    let b_half_y: i64 = ((b_size.y as u64) / 2) as i64;
    let a_min_x: i64 = a_pos.x - a_half_x;
    let a_max_x: i64 = a_pos.x + a_half_x;
    let a_min_y: i64 = a_pos.y - a_half_y;
    let a_max_y: i64 = a_pos.y + a_half_y;
    let b_min_x: i64 = b_pos.x - b_half_x;
    let b_max_x: i64 = b_pos.x + b_half_x;
    let b_min_y: i64 = b_pos.y - b_half_y;
    let b_max_y: i64 = b_pos.y + b_half_y;
    if !(a_min_x < b_max_x && a_max_x > b_min_x && a_min_y < b_max_y && a_max_y > b_min_y) {
        return None;
    }
    let mut x_coll: Option<Collision> = None;
    let mut x_depth: i64 = 0;
    if a_min_x < b_min_x && a_max_x > b_min_x && a_max_x < b_max_x {
        x_coll = Some(Collision::Left);
        x_depth = a_max_x - b_min_x;
    } else if a_min_x > b_min_x && a_min_x < b_max_x && a_max_x > b_max_x {
        x_coll = Some(Collision::Right);
        x_depth = b_max_x - a_min_x;
    }
    let mut y_coll: Option<Collision> = None;
    let mut y_depth: i64 = 0;
    if a_min_y < b_min_y && a_max_y > b_min_y && a_max_y < b_max_y {
        y_coll = Some(Collision::Bottom);
        y_depth = a_max_y - b_min_y;
    } else if a_min_y > b_min_y && a_min_y < b_max_y && a_max_y > b_max_y {
        y_coll = Some(Collision::Top);
        y_depth = b_max_y - a_min_y;
    }
    match (x_coll, y_coll) {
        (None, None) => Some(Collision::Inside),
        (Some(xc), None) => Some(xc),
        (None, Some(yc)) => Some(yc),
        (Some(xc), Some(yc)) => if y_depth < x_depth {
            Some(yc)
        } else {
            Some(xc)
        },
    }
}

/// The extent of an enemy's bounding box.
pub open spec fn enemy_size_spec() -> Vec2 {
    Vec2 { x: ENEMY_SIZE_X, y: ENEMY_SIZE_Y }
}

/// An enemy velocity after resolving one collider: if the enemy's box
/// overlaps it, the velocity component perpendicular to the hit side is
/// reflected, but only when it points into the surface; a component moving
/// away, an `Inside` overlap, and no overlap leave the velocity alone.
pub open spec fn reflect_spec(e_pos: Vec2, vx: int, vy: int, c: Collider) -> (int, int) {
    match collide_spec(e_pos, enemy_size_spec(), c.pos, c.size) {
        Some(Collision::Left) => if vx > 0 {
            (-vx, vy)
        } else {
            (vx, vy)
        },
        Some(Collision::Right) => if vx < 0 {
            (-vx, vy)
        } else {
            (vx, vy)
        },
        Some(Collision::Top) => if vy < 0 {
            (vx, -vy)
        } else {
            (vx, vy)
        },
        Some(Collision::Bottom) => if vy > 0 {
            (vx, -vy)
        } else {
            (vx, vy)
        },
        _ => (vx, vy),
    }
}

/// An enemy velocity after resolving every collider of `cs` in order,
/// front to back, each step seeing the velocity the previous one left.
pub open spec fn reflect_all(e_pos: Vec2, vx: int, vy: int, cs: Seq<Collider>) -> (int, int)
    decreases cs.len(),
{
    if cs.len() == 0 {
        (vx, vy)
    } else {
        let m = reflect_all(e_pos, vx, vy, cs.drop_last());
        reflect_spec(e_pos, m.0, m.1, cs.last())
    }
}

/// Reflection never changes a velocity component's magnitude.
pub proof fn lemma_reflect_all_abs(e_pos: Vec2, vx: int, vy: int, cs: Seq<Collider>)
    ensures
        abs_i(reflect_all(e_pos, vx, vy, cs).0) == abs_i(vx),
        abs_i(reflect_all(e_pos, vx, vy, cs).1) == abs_i(vy),
    decreases cs.len(),
{
    if cs.len() > 0 {
        lemma_reflect_all_abs(e_pos, vx, vy, cs.drop_last());
    }
}

/// An enemy moving away from a side it overlaps is never reflected on that
/// axis: only a velocity component opposing the surface flips.
pub proof fn lemma_no_reflect_moving_away(e_pos: Vec2, vx: int, vy: int, c: Collider)
    ensures
        collide_spec(e_pos, enemy_size_spec(), c.pos, c.size) == Some(Collision::Left) && vx <= 0
            ==> reflect_spec(e_pos, vx, vy, c) == (vx, vy),
        collide_spec(e_pos, enemy_size_spec(), c.pos, c.size) == Some(Collision::Right) && vx >= 0
            ==> reflect_spec(e_pos, vx, vy, c) == (vx, vy),
        collide_spec(e_pos, enemy_size_spec(), c.pos, c.size) == Some(Collision::Top) && vy >= 0
            ==> reflect_spec(e_pos, vx, vy, c) == (vx, vy),
        collide_spec(e_pos, enemy_size_spec(), c.pos, c.size) == Some(Collision::Bottom) && vy <= 0
            ==> reflect_spec(e_pos, vx, vy, c) == (vx, vy),
{
}

/// An enemy after its velocity is reflected off every collider it overlaps.
pub open spec fn collide_enemy_spec(e: Enemy, cs: Seq<Collider>) -> Enemy {
    let m = reflect_all(e.pos, e.vel.x as int, e.vel.y as int, cs);
    Enemy { vel: Vec2 { x: m.0 as i64, y: m.1 as i64 }, ..e }
}

/// Wall bounces touch nothing but velocities, and those only by sign: a
/// well-formed enemy stays well formed, exactly where it was.
pub proof fn lemma_collide_enemies_props(s: Seq<Enemy>, cs: Seq<Collider>)
    requires
        forall|j: int| 0 <= j < s.len() ==> crate::entities::enemy_wf(#[trigger] s[j]),
    ensures
        s.map_values(|e: Enemy| collide_enemy_spec(e, cs)).len() == s.len(),
        forall|j: int|
            #![trigger s[j]]
            0 <= j < s.len() ==> {
                let m = s.map_values(|e: Enemy| collide_enemy_spec(e, cs))[j];
                m.pos == s[j].pos && m.hp == s[j].hp && m.tint == s[j].tint
                    && crate::entities::enemy_wf(m)
            },
{
    assert forall|j: int| #![trigger s[j]] 0 <= j < s.len() implies {
        let m = s.map_values(|e: Enemy| collide_enemy_spec(e, cs))[j];
        m.pos == s[j].pos && m.hp == s[j].hp && m.tint == s[j].tint
            && crate::entities::enemy_wf(m)
    } by {
        assert(s.map_values(|e: Enemy| collide_enemy_spec(e, cs))[j] == collide_enemy_spec(
            s[j],
            cs,
        ));
        lemma_reflect_all_abs(s[j].pos, s[j].vel.x as int, s[j].vel.y as int, cs);
    }
}

/// Resolve wall bounces: reflect every enemy's velocity off every collider
/// it overlaps, walking the colliders front to back.
pub fn check_for_collisions(enemies: &mut Vec<Enemy>, colliders: &Vec<Collider>)
    requires
        forall|j: int|
            0 <= j < old(enemies)@.len() ==> in_coord_range(#[trigger] old(enemies)@[j].pos)
                && old(enemies)@[j].vel.x > i64::MIN && old(enemies)@[j].vel.y > i64::MIN,
        forall|k: int| 0 <= k < colliders@.len() ==> collider_wf(#[trigger] colliders@[k]),
    ensures
        final(enemies)@ == old(enemies)@.map_values(
            |e: Enemy| collide_enemy_spec(e, colliders@),
        ),
{
    let ghost orig: Seq<Enemy> = enemies@;
    let n: usize = enemies.len();
    let mut i: usize = 0;
    while i < n
        invariant
            i <= n,
            n == orig.len(),
            enemies@.len() == orig.len(),
            forall|j: int|
                0 <= j < orig.len() ==> in_coord_range(#[trigger] orig[j].pos)
                    && orig[j].vel.x > i64::MIN && orig[j].vel.y > i64::MIN,
            forall|k: int| 0 <= k < colliders@.len() ==> collider_wf(#[trigger] colliders@[k]),
            forall|j: int|
                0 <= j < i ==> enemies@[j] == collide_enemy_spec(#[trigger] orig[j], colliders@),
            forall|j: int| i <= j < orig.len() ==> enemies@[j] == #[trigger] orig[j],
        decreases n - i,
    {
        let e: Enemy = enemies[i];
        proof {
            assert(e == orig[i as int]);
            assert(in_coord_range(orig[i as int].pos));
        }
        let bounced = collide_enemy(e, colliders);
        enemies.set(i, bounced);
        i = i + 1;
    }
    assert(enemies@ =~= orig.map_values(|e: Enemy| collide_enemy_spec(e, colliders@)));
}

/// Reflect one enemy's velocity off every collider it overlaps.
fn collide_enemy(e: Enemy, colliders: &Vec<Collider>) -> (r: Enemy)
    requires
        in_coord_range(e.pos),
        e.vel.x > i64::MIN,
        e.vel.y > i64::MIN,
        forall|k: int| 0 <= k < colliders@.len() ==> collider_wf(#[trigger] colliders@[k]),
    ensures
        r == collide_enemy_spec(e, colliders@),
{
    let enemy_size = Vec2 { x: ENEMY_SIZE_X, y: ENEMY_SIZE_Y };
    let mut vel: Vec2 = e.vel;
    let m: usize = colliders.len();
    let mut j: usize = 0;
    while j < m
        invariant
            j <= m,
            m == colliders@.len(),
            in_coord_range(e.pos),
            e.vel.x > i64::MIN,
            e.vel.y > i64::MIN,
            enemy_size == enemy_size_spec(),
            forall|k: int| 0 <= k < colliders@.len() ==> collider_wf(#[trigger] colliders@[k]),
            (vel.x as int, vel.y as int) == reflect_all(
                e.pos,
                e.vel.x as int,
                e.vel.y as int,
                colliders@.take(j as int),
            ),
        decreases m - j,
    {
        let c: Collider = colliders[j];
        proof {
            assert(collider_wf(colliders@[j as int]));
            lemma_reflect_all_abs(
                e.pos,
                e.vel.x as int,
                e.vel.y as int,
                colliders@.take(j as int),
            );
            assert(colliders@.take(j as int + 1).drop_last() =~= colliders@.take(j as int));
            assert(colliders@.take(j as int + 1).last() == colliders@[j as int]);
        }
        let side = collide(e.pos, enemy_size, c.pos, c.size);
        match side {
            Some(Collision::Left) => {
                if vel.x > 0 {
                    vel.x = -vel.x;
                }
            },
            Some(Collision::Right) => {
                if vel.x < 0 {
                    vel.x = -vel.x;
                }
            },
            Some(Collision::Top) => {
                if vel.y < 0 {
                    vel.y = -vel.y;
                }
            },
            Some(Collision::Bottom) => {
                if vel.y > 0 {
                    vel.y = -vel.y;
                }
            },
            _ => {},
        }
        j = j + 1;
    }
    proof {
        assert(colliders@.take(m as int) =~= colliders@);
    }
    Enemy { vel, ..e }
}

} // verus!
