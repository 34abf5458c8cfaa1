//! Explosion animations: a spawn step that turns each pending request into a
//! running animation, and an animation step that advances every explosion's
//! frame index by one per elapsed timer period and removes an explosion the
//! moment its index reaches the sprite-sheet length. The sequence is strictly
//! one-shot: requested, active through the frames, removed; it never loops.

use vstd::prelude::*;
use vstd::arithmetic::div_mod::{
    lemma_basic_div, lemma_div_nonincreasing, lemma_div_pos_is_pos,
    lemma_fundamental_div_mod_converse,
};
use crate::entities::{Explosion, ExplosionTimer, ExplosionToSpawn};

verus! {

/// Frames in the explosion sprite sheet; an animation ends when its frame
/// index reaches this count.
pub const EXPLOSION_LEN: u64 = 16;

/// Period of the explosion animation timer, in microseconds (0.05 s).
pub const EXPLOSION_PERIOD: u64 = 50_000;

/// Largest time step, in microseconds, one animation step accepts: far more
/// than a day, far less than any machine limit.
pub const DELTA_LIMIT: u64 = 1_000_000_000_000;

impl Default for ExplosionTimer {
    /// A fresh animation timer: nothing elapsed toward an
    /// `EXPLOSION_PERIOD` expiry.
    fn default() -> (t: Self)
        ensures
            t == (ExplosionTimer { elapsed: 0, period: EXPLOSION_PERIOD }),
    {
        ExplosionTimer { elapsed: 0, period: EXPLOSION_PERIOD }
    }
}

/// A running timer keeps its accumulator strictly below its period.
pub open spec fn timer_wf(t: ExplosionTimer) -> bool {
    &&& 0 < t.period
    &&& t.elapsed < t.period
}

/// How many whole periods elapse when `delta` is added to the timer.
pub open spec fn timer_fires(t: ExplosionTimer, delta: int) -> int
    recommends
        t.period > 0,
{
    (t.elapsed + delta) / (t.period as int)
}

/// The timer after `delta` elapses: the accumulator keeps the remainder
/// short of the next period.
pub open spec fn timer_after(t: ExplosionTimer, delta: int) -> ExplosionTimer
    recommends
        t.period > 0,
{
    ExplosionTimer {
        elapsed: ((t.elapsed + delta) % (t.period as int)) as u64,
        period: t.period,
    }
}

/// Advance a timer by `delta` microseconds; return how many whole periods
/// elapsed.
pub fn tick_timer(t: &mut ExplosionTimer, delta: u64) -> (fires: u64)
    requires
        timer_wf(*old(t)),
        old(t).elapsed + delta <= u64::MAX,
    ensures
        fires == timer_fires(*old(t), delta as int),
        *final(t) == timer_after(*old(t), delta as int),
        timer_wf(*final(t)),
        fires <= delta,
{
    let total: u64 = t.elapsed + delta;
    let fires: u64 = total / t.period;
    proof {
        let p = t.period as int;
        lemma_div_nonincreasing(total as int, p);
        lemma_div_pos_is_pos(total as int, p);
        assert(total < p * (delta + 1)) by (nonlinear_arith)
            requires
                total <= p - 1 + delta,
                p >= 1,
                0 <= delta,
        ;
        vstd::arithmetic::div_mod::lemma_multiply_divide_lt(total as int, p, delta + 1);
    }
    t.elapsed = total % t.period;
    fires
}

/// A running animation: its timer is well formed with the explosion period,
/// and its frame index has not yet reached the sheet length.
pub open spec fn explosion_wf(e: Explosion) -> bool {
    &&& timer_wf(e.timer)
    &&& e.timer.period == EXPLOSION_PERIOD
    &&& e.frame < EXPLOSION_LEN
}

/// A just-spawned explosion at the requested position: a fresh timer and
/// the first frame of the sheet.
pub open spec fn spawn_explosion_spec(r: ExplosionToSpawn) -> Explosion {
    Explosion {
        pos: r.0,
        timer: ExplosionTimer { elapsed: 0, period: EXPLOSION_PERIOD },
        frame: 0,
    }
}

/// Turn every pending explosion request into a running explosion at the
/// requested position, appended in request order, and drop the requests.
pub fn explosion_to_spawn_system(
    requests: &mut Vec<ExplosionToSpawn>,
    explosions: &mut Vec<Explosion>,
)
    ensures
        final(explosions)@ == old(explosions)@ + old(requests)@.map_values(
            |r: ExplosionToSpawn| spawn_explosion_spec(r),
        ),
        final(requests)@.len() == 0,
{
    let ghost orig_req: Seq<ExplosionToSpawn> = requests@;
    let ghost orig_expl: Seq<Explosion> = explosions@;
    let n: usize = requests.len();
    let mut i: usize = 0;
    while i < n
        invariant
            i <= n,
            n == orig_req.len(),
            requests@ == orig_req,
            explosions@ == orig_expl + orig_req.take(i as int).map_values(
                |r: ExplosionToSpawn| spawn_explosion_spec(r),
            ),
        decreases n - i,
    {
        let r: ExplosionToSpawn = requests[i];
        explosions.push(
            Explosion {
                pos: r.0,
                timer: ExplosionTimer { elapsed: 0, period: EXPLOSION_PERIOD },
                frame: 0,
            },
        );
        proof {
            assert(explosions@ =~= orig_expl + orig_req.take(i as int + 1).map_values(
                |r: ExplosionToSpawn| spawn_explosion_spec(r),
            ));
        }
        i = i + 1;
    }
    requests.clear();
    proof {
        assert(orig_req.take(n as int) =~= orig_req);
    }
}

/// One explosion after `delta` microseconds: the timer advances keeping its
/// remainder, and the frame index grows by one per whole period elapsed.
pub open spec fn animate_spec(e: Explosion, delta: int) -> Explosion {
    Explosion {
        timer: timer_after(e.timer, delta),
        frame: (e.frame + timer_fires(e.timer, delta)) as u64,
        ..e
    }
}

/// The explosions still running after `delta` microseconds, in order: each
/// is advanced by `animate_spec`, and exactly those whose frame index has
/// reached `EXPLOSION_LEN` are removed — none earlier, none later.
pub open spec fn animate_all(s: Seq<Explosion>, delta: int) -> Seq<Explosion>
    decreases s.len(),
{
    if s.len() == 0 {
        Seq::empty()
    } else {
        let rest = animate_all(s.drop_last(), delta);
        let a = animate_spec(s.last(), delta);
        if a.frame >= EXPLOSION_LEN {
            rest
        } else {
            rest.push(a)
        }
    }
}

/// Every explosion the animation step keeps is still well formed.
pub proof fn lemma_animate_all_wf(s: Seq<Explosion>, delta: int)
    requires
        0 <= delta,
        forall|j: int|
            0 <= j < s.len() ==> timer_wf((#[trigger] s[j]).timer) && s[j].timer.period
                == EXPLOSION_PERIOD,
    ensures
        forall|j: int|
            0 <= j < animate_all(s, delta).len() ==> explosion_wf(#[trigger] animate_all(s, delta)[j]),
    decreases s.len(),
{
    if s.len() > 0 {
        assert(forall|j: int|
            0 <= j < s.drop_last().len() ==> timer_wf((#[trigger] s.drop_last()[j]).timer)
                && s.drop_last()[j].timer.period == EXPLOSION_PERIOD);
        lemma_animate_all_wf(s.drop_last(), delta);
        let rest = animate_all(s.drop_last(), delta);
        let a = animate_spec(s.last(), delta);
        let t = s.last().timer;
        assert(0 <= (t.elapsed + delta) % (t.period as int) < t.period) by {
            vstd::arithmetic::div_mod::lemma_mod_division_less_than_divisor(
                t.elapsed + delta,
                t.period as int,
            );
        }
        if a.frame >= EXPLOSION_LEN {
            assert(animate_all(s, delta) == rest);
        } else {
            assert(animate_all(s, delta) == rest.push(a));
            assert(explosion_wf(a));
            assert forall|j: int| 0 <= j < animate_all(s, delta).len() implies explosion_wf(
                #[trigger] animate_all(s, delta)[j],
            ) by {
                if j < rest.len() {
                    assert(animate_all(s, delta)[j] == rest[j]);
                } else {
                    assert(animate_all(s, delta)[j] == a);
                }
            }
        }
    }
}

/// How an explosion's frame index moves in one step: not at all while the
/// accumulated time stays short of one period, and by exactly one when one
/// whole period (and less than two) has elapsed.
pub proof fn lemma_frame_advance(e: Explosion, delta: int)
    requires
        timer_wf(e.timer),
        e.frame < EXPLOSION_LEN,
        0 <= delta,
    ensures
        e.timer.elapsed + delta < e.timer.period ==> animate_spec(e, delta).frame == e.frame,
        e.timer.period <= e.timer.elapsed + delta < 2 * e.timer.period ==> animate_spec(
            e,
            delta,
        ).frame == e.frame + 1,
{
    let p = e.timer.period as int;
    let total = e.timer.elapsed + delta;
    if total < p {
        lemma_basic_div(total, p);
    } else if total < 2 * p {
        lemma_fundamental_div_mod_converse(total, p, 1, total - p);
    }
}

/// Advance every explosion by `delta` microseconds and remove exactly those
/// whose frame index reached the end of the sheet.
pub fn explosion_animation_system(explosions: &mut Vec<Explosion>, delta: u64)
    requires
        delta <= DELTA_LIMIT,
        forall|j: int|
            0 <= j < old(explosions)@.len() ==> timer_wf(
                (#[trigger] old(explosions)@[j]).timer,
            ) && old(explosions)@[j].frame < EXPLOSION_LEN && old(
                explosions,
            )@[j].timer.elapsed + delta <= u64::MAX,
    ensures
        final(explosions)@ == animate_all(old(explosions)@, delta as int),
{
    let ghost orig: Seq<Explosion> = explosions@;
    let n: usize = explosions.len();
    let mut kept: Vec<Explosion> = Vec::new();
    let mut i: usize = 0;
    while i < n
        invariant
            i <= n,
            n == orig.len(),
            explosions@ == orig,
            delta <= DELTA_LIMIT,
            forall|j: int|
                0 <= j < orig.len() ==> timer_wf((#[trigger] orig[j]).timer)
                    && orig[j].frame < EXPLOSION_LEN && orig[j].timer.elapsed + delta
                    <= u64::MAX,
            kept@ == animate_all(orig.take(i as int), delta as int),
        decreases n - i,
    {
        let e: Explosion = explosions[i];
        proof {
            assert(e == orig[i as int]);
            assert(timer_wf(orig[i as int].timer));
            assert(orig.take(i as int + 1).drop_last() =~= orig.take(i as int));
            assert(orig.take(i as int + 1).last() == orig[i as int]);
        }
        let mut timer: ExplosionTimer = e.timer;
        let fires: u64 = tick_timer(&mut timer, delta);
        let frame: u64 = e.frame + fires;
        if frame < EXPLOSION_LEN {
            kept.push(Explosion { pos: e.pos, timer, frame });
        }
        i = i + 1;
    }
    proof {
        assert(orig.take(n as int) =~= orig);
    }
    *explosions = kept;
}

} // verus!
