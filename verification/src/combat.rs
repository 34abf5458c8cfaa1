//! Melee combat: on an attack trigger, every enemy within the weapon radius
//! of the player takes one fixed hit of damage at once — area melee, with no
//! single-target selection. An enemy whose health drops to zero or below is
//! removed in the same frame, scores exactly one point, and leaves behind a
//! request to spawn an explosion at its last position.

use vstd::prelude::*;
use crate::entities::{enemy_wf, Enemy, ExplosionToSpawn, Hp, InputState};
use crate::geom::{dist, distance, in_coord_range, pos_within, Vec2};

verus! {

/// Reach of the player's melee weapon, in milliunits: half the magnet
/// radius.
pub const WEAPON_RADIUS: u64 = 100_000;

/// Health an enemy loses per qualifying hit frame.
pub const DAMAGE: i32 = 10;

/// Whether an attack this frame reaches the enemy: within the weapon
/// radius, boundary included.
pub open spec fn enemy_hit(p: Vec2, e: Enemy) -> bool {
    dist(p, e.pos) <= WEAPON_RADIUS
}

/// Whether a hit this frame kills the enemy.
pub open spec fn enemy_killed(p: Vec2, e: Enemy) -> bool {
    enemy_hit(p, e) && e.hp.current - DAMAGE <= 0
}

/// The enemy after taking one hit.
pub open spec fn damaged(e: Enemy) -> Enemy {
    Enemy { hp: Hp { current: (e.hp.current - DAMAGE) as i32, max: e.hp.max }, ..e }
}

/// The enemies left after one attack frame, in their original order: an
/// enemy out of reach is kept as it is, a hit survivor is kept with its
/// health lowered by exactly the damage constant, and a killed enemy is
/// removed.
pub open spec fn combat_enemies(p: Vec2, s: Seq<Enemy>) -> Seq<Enemy>
    decreases s.len(),
{
    if s.len() == 0 {
        Seq::empty()
    } else {
        let rest = combat_enemies(p, s.drop_last());
        let e = s.last();
        if enemy_killed(p, e) {
            rest
        } else if enemy_hit(p, e) {
            rest.push(damaged(e))
        } else {
            rest.push(e)
        }
    }
}

/// The explosion-spawn requests one attack frame produces: one per killed
/// enemy, at its last position, in the enemies' order.
pub open spec fn combat_requests(p: Vec2, s: Seq<Enemy>) -> Seq<ExplosionToSpawn>
    decreases s.len(),
{
    if s.len() == 0 {
        Seq::empty()
    } else {
        let rest = combat_requests(p, s.drop_last());
        if enemy_killed(p, s.last()) {
            rest.push(ExplosionToSpawn(s.last().pos))
        } else {
            rest
        }
    }
}

/// How many enemies one attack frame kills.
pub open spec fn combat_kills(p: Vec2, s: Seq<Enemy>) -> int
    decreases s.len(),
{
    if s.len() == 0 {
        0
    } else {
        combat_kills(p, s.drop_last()) + if enemy_killed(p, s.last()) {
            1int
        } else {
            0int
        }
    }
}

/// An attack frame kills between zero and all of the enemies, scores one
/// point per kill, and leaves one spawn request per kill — never more.
pub proof fn lemma_combat_counts(p: Vec2, s: Seq<Enemy>)
    ensures
        0 <= combat_kills(p, s) <= s.len(),
        combat_requests(p, s).len() == combat_kills(p, s),
        combat_enemies(p, s).len() == s.len() - combat_kills(p, s),
    decreases s.len(),
{
    if s.len() > 0 {
        lemma_combat_counts(p, s.drop_last());
    }
}

/// Combat treats every enemy independently: resolving a concatenation is
/// resolving the parts. With `lemma_combat_one_enemy` below this pins what
/// one attack frame does to each single enemy, wherever it stands in the
/// list.
pub proof fn lemma_combat_concat(p: Vec2, s1: Seq<Enemy>, s2: Seq<Enemy>)
    ensures
        combat_enemies(p, s1 + s2) == combat_enemies(p, s1) + combat_enemies(p, s2),
        combat_requests(p, s1 + s2) == combat_requests(p, s1) + combat_requests(p, s2),
        combat_kills(p, s1 + s2) == combat_kills(p, s1) + combat_kills(p, s2),
    decreases s2.len(),
{
    if s2.len() == 0 {
        assert(s1 + s2 =~= s1);
        assert(combat_enemies(p, s1) + combat_enemies(p, s2) =~= combat_enemies(p, s1));
        assert(combat_requests(p, s1) + combat_requests(p, s2) =~= combat_requests(p, s1));
    } else {
        lemma_combat_concat(p, s1, s2.drop_last());
        assert((s1 + s2).drop_last() =~= s1 + s2.drop_last());
        assert((s1 + s2).last() == s2.last());
        if enemy_killed(p, s2.last()) {
            assert(combat_requests(p, s1 + s2) =~= combat_requests(p, s1) + combat_requests(
                p,
                s2,
            ));
        } else if enemy_hit(p, s2.last()) {
            assert(combat_enemies(p, s1 + s2) =~= combat_enemies(p, s1) + combat_enemies(p, s2));
        } else {
            assert(combat_enemies(p, s1 + s2) =~= combat_enemies(p, s1) + combat_enemies(p, s2));
        }
    }
}

/// What one attack frame does to one enemy, wherever it stands among the
/// others: out of reach it is kept untouched; hit but surviving, it is kept
/// with its health lowered by exactly `DAMAGE`; killed, it is removed, it
/// raises the kill count by exactly one, and it leaves exactly one
/// explosion request at its position. The enemies around it are resolved
/// exactly as they would be alone.
pub proof fn lemma_combat_one_enemy(p: Vec2, s1: Seq<Enemy>, e: Enemy, s2: Seq<Enemy>)
    ensures
        combat_enemies(p, s1 + seq![e] + s2) == combat_enemies(p, s1) + (if enemy_killed(p, e) {
            Seq::<Enemy>::empty()
        } else if enemy_hit(p, e) {
            seq![damaged(e)]
        } else {
            seq![e]
        }) + combat_enemies(p, s2),
        combat_kills(p, s1 + seq![e] + s2) == combat_kills(p, s1) + (if enemy_killed(p, e) {
            1int
        } else {
            0int
        }) + combat_kills(p, s2),
        combat_requests(p, s1 + seq![e] + s2) == combat_requests(p, s1) + (if enemy_killed(
            p,
            e,
        ) {
            seq![ExplosionToSpawn(e.pos)]
        } else {
            Seq::<ExplosionToSpawn>::empty()
        }) + combat_requests(p, s2),
{
    lemma_combat_concat(p, s1 + seq![e], s2);
    lemma_combat_concat(p, s1, seq![e]);
    assert(s1 + seq![e] + s2 == (s1 + seq![e]) + s2);
    assert(seq![e].drop_last() =~= Seq::<Enemy>::empty());
    assert(seq![e].last() == e);
    assert(combat_enemies(p, Seq::<Enemy>::empty()) == Seq::<Enemy>::empty());
    assert(combat_requests(p, Seq::<Enemy>::empty()) == Seq::<ExplosionToSpawn>::empty());
    assert(combat_kills(p, Seq::<Enemy>::empty()) == 0);
    if enemy_killed(p, e) {
        assert(combat_enemies(p, seq![e]) =~= Seq::<Enemy>::empty());
        assert(combat_requests(p, seq![e]) =~= seq![ExplosionToSpawn(e.pos)]);
    } else if enemy_hit(p, e) {
        assert(combat_enemies(p, seq![e]) =~= seq![damaged(e)]);
        assert(combat_requests(p, seq![e]) =~= Seq::<ExplosionToSpawn>::empty());
    } else {
        assert(combat_enemies(p, seq![e]) =~= seq![e]);
        assert(combat_requests(p, seq![e]) =~= Seq::<ExplosionToSpawn>::empty());
    }
}

/// Combat keeps every surviving enemy well formed and within any coordinate
/// bound the originals kept: a hit survivor keeps positive health (it
/// survived the damage); its maximum, velocity and position are untouched.
pub proof fn lemma_combat_enemies_wf(p: Vec2, s: Seq<Enemy>, b: int)
    requires
        forall|j: int|
            0 <= j < s.len() ==> enemy_wf(#[trigger] s[j]) && pos_within(s[j].pos, b),
    ensures
        forall|j: int|
            0 <= j < combat_enemies(p, s).len() ==> enemy_wf(#[trigger] combat_enemies(p, s)[j])
                && pos_within(combat_enemies(p, s)[j].pos, b),
    decreases s.len(),
{
    if s.len() > 0 {
        assert(forall|j: int|
            0 <= j < s.drop_last().len() ==> enemy_wf(#[trigger] s.drop_last()[j])
                && pos_within(s.drop_last()[j].pos, b));
        lemma_combat_enemies_wf(p, s.drop_last(), b);
    }
}

/// One frame of the combat system. When neither attack trigger fired this
/// frame, nothing changes. When one did, every enemy within the weapon
/// radius takes `DAMAGE` at once; the dead are removed from the enemy list,
/// the score grows by exactly the number killed, and one explosion-spawn
/// request per kill is appended, in order, at the victims' last positions.
pub fn combat(
    player_pos: Vec2,
    enemies: &mut Vec<Enemy>,
    requests: &mut Vec<ExplosionToSpawn>,
    score: &mut usize,
    input: &InputState,
) -> (hit_frame: bool)
    requires
        in_coord_range(player_pos),
        forall|j: int|
            0 <= j < old(enemies)@.len() ==> in_coord_range(#[trigger] old(enemies)@[j].pos)
                && old(enemies)@[j].hp.current >= i32::MIN + DAMAGE,
        *old(score) + old(enemies)@.len() <= usize::MAX,
    ensures
        hit_frame == (input.attack_mouse || input.attack_key),
        hit_frame ==> final(enemies)@ == combat_enemies(player_pos, old(enemies)@)
            && final(requests)@ == old(requests)@ + combat_requests(player_pos, old(enemies)@)
            && *final(score) == *old(score) + combat_kills(player_pos, old(enemies)@),
        !hit_frame ==> final(enemies)@ == old(enemies)@ && final(requests)@ == old(requests)@
            && *final(score) == *old(score),
{
    let attack: bool = input.attack_mouse || input.attack_key;
    if !attack {
        return false;
    }
    let ghost orig: Seq<Enemy> = enemies@;
    let ghost orig_requests: Seq<ExplosionToSpawn> = requests@;
    let ghost orig_score: int = *score as int;
    let n: usize = enemies.len();
    let mut survivors: Vec<Enemy> = Vec::new();
    let mut i: usize = 0;
    while i < n
        invariant
            i <= n,
            n == orig.len(),
            enemies@ == orig,
            in_coord_range(player_pos),
            forall|j: int|
                0 <= j < orig.len() ==> in_coord_range(#[trigger] orig[j].pos)
                    && orig[j].hp.current >= i32::MIN + DAMAGE,
            orig_score + orig.len() <= usize::MAX,
            survivors@ == combat_enemies(player_pos, orig.take(i as int)),
            requests@ == orig_requests + combat_requests(player_pos, orig.take(i as int)),
            *score == orig_score + combat_kills(player_pos, orig.take(i as int)),
            0 <= combat_kills(player_pos, orig.take(i as int)) <= i,
        decreases n - i,
    {
        let e: Enemy = enemies[i];
        proof {
            assert(e == orig[i as int]);
            assert(in_coord_range(orig[i as int].pos));
            assert(orig.take(i as int + 1).drop_last() =~= orig.take(i as int));
            assert(orig.take(i as int + 1).last() == orig[i as int]);
        }
        let d: u64 = distance(player_pos, e.pos);
        if d <= WEAPON_RADIUS {
            let remaining: i32 = e.hp.current - DAMAGE;
            if remaining <= 0 {
                *score = *score + 1;
                requests.push(ExplosionToSpawn(e.pos));
            } else {
                survivors.push(
                    Enemy { hp: Hp { current: remaining, max: e.hp.max }, ..e },
                );
            }
        } else {
            survivors.push(e);
        }
        i = i + 1;
    }
    proof {
        assert(orig.take(n as int) =~= orig);
    }
    *enemies = survivors;
    true
}

} // verus!
