//! Homing targets: wave spawning under a population cap, movement toward the
//! anchor, and the removal pass that despawns dead targets.
use vstd::prelude::*;

use crate::constants::{POS_LIMIT, SPAWN_DIST_LIMIT};
use crate::geom::{axis_step, lemma_small_square, lemma_sq_dist_offset, sq_dist_pos, step_toward, valid_pos, Pos};
use crate::rng::random_in_range;

verus! {

/// A homing target: identity, position, and remaining health. Health starts
/// at a fixed maximum, decreases on hit without clamping, and the target is
/// removed by the next removal pass once it is at or below zero.
#[derive(Clone, Copy, PartialEq, Eq, Structural, Debug)]
pub struct Enemy {
    pub id: u64,
    pub pos: Pos,
    pub health: i64,
}

impl Enemy {
    /// A fresh target at full health.
    pub fn new(id: u64, pos: Pos, health: i64) -> (e: Enemy)
        ensures
            e.id == id && e.pos == pos && e.health == health,
    {
        Enemy { id, pos, health }
    }
}

/// No two targets share an identity.
pub open spec fn unique_enemy_ids(s: Seq<Enemy>) -> bool {
    forall|i: int, j: int|
        #![trigger s[i].id, s[j].id]
        0 <= i < s.len() && 0 <= j < s.len() && i != j ==> s[i].id != s[j].id
}

/// How many targets a wave introduces: the deficit up to the cap, but at
/// most `batch_limit` per wave, and none once the cap is reached.
pub open spec fn spec_spawn_count(population: int, cap: int, batch_limit: int) -> int {
    if population >= cap {
        0
    } else if cap - population < batch_limit {
        cap - population
    } else {
        batch_limit
    }
}

/// Law: a wave never lifts the population over the cap — a population at or
/// under the cap stays at or under it after adding the wave's spawn count.
pub proof fn lemma_spawn_respects_cap(population: int, cap: int, batch_limit: int)
    requires
        0 <= population <= cap,
        0 <= batch_limit,
    ensures
        population + spec_spawn_count(population, cap, batch_limit) <= cap,
{
}

/// The number of targets the next wave spawns, given the current population.
pub fn spawn_count(population: usize, cap: usize, batch_limit: usize) -> (n: usize)
    ensures
        n == spec_spawn_count(population as int, cap as int, batch_limit as int),
{
    if population >= cap {
        0
    } else if cap - population < batch_limit {
        cap - population
    } else {
        batch_limit
    }
}

/// A random position in the closed annulus between `min_dist` and `max_dist`
/// around `anchor`, and inside the world's coordinate range: a spawn is
/// neither on top of the anchor nor off the edge of the reachable world.
/// Random offsets are drawn and kept when they land in the annulus; after
/// too many rejected draws the spawn falls back to the near edge of the
/// annulus, due east or west of the anchor, whichever is in range.
pub fn get_random_spawn_position(anchor: Pos, min_dist: i64, max_dist: i64) -> (p: Pos)
    requires
        valid_pos(anchor),
        0 < min_dist <= max_dist <= SPAWN_DIST_LIMIT,
    ensures
        valid_pos(p),
        min_dist * min_dist <= sq_dist_pos(anchor, p) <= max_dist * max_dist,
{
    let mut attempts: usize = 0;
    while attempts < 32
        invariant
            valid_pos(anchor),
            0 < min_dist <= max_dist <= SPAWN_DIST_LIMIT,
        decreases 32 - attempts,
    {
        let dx = random_in_range(-max_dist, max_dist + 1);
        let dy = random_in_range(-max_dist, max_dist + 1);
        proof {
            lemma_small_square(dx as int);
            lemma_small_square(dy as int);
            lemma_small_square(min_dist as int);
            lemma_small_square(max_dist as int);
        }
        let d2 = dx * dx + dy * dy;
        if min_dist * min_dist <= d2 && d2 <= max_dist * max_dist {
            let px = anchor.x + dx;
            let py = anchor.y + dy;
            if -POS_LIMIT <= px && px <= POS_LIMIT && -POS_LIMIT <= py && py <= POS_LIMIT {
                let p = Pos { x: px, y: py };
                proof {
                    lemma_sq_dist_offset(anchor, p, dx as int, dy as int);
                }
                return p;
            }
        }
        attempts = attempts + 1;
    }
    let east = anchor.x + min_dist <= POS_LIMIT;
    let px = if east {
        anchor.x + min_dist
    } else {
        anchor.x - min_dist
    };
    let p = Pos { x: px, y: anchor.y };
    proof {
        let dx: int = if east {
            min_dist as int
        } else {
            -min_dist as int
        };
        lemma_sq_dist_offset(anchor, p, dx, 0);
        assert(dx * dx == min_dist * min_dist) by (nonlinear_arith)
            requires dx == min_dist || dx == -min_dist;
        assert(min_dist * min_dist <= max_dist * max_dist) by (nonlinear_arith)
            requires 0 < min_dist <= max_dist;
    }
    p
}

/// Whether `e` is a target the given wave could have spawned around `a`.
pub open spec fn spawned_around(e: Enemy, a: Pos, health: int, min_dist: int, max_dist: int) -> bool {
    &&& valid_pos(e.pos)
    &&& e.health == health
    &&& min_dist * min_dist <= sq_dist_pos(a, e.pos) <= max_dist * max_dist
}

/// Spawn one wave of targets around the anchor: `min(cap - population,
/// batch_limit)` of them, none when the population is at the cap or no
/// anchor exists. Each spawned target starts at full health, at a fresh
/// identity drawn in order from `next_id`, in the spawn annulus.
pub fn spawn_enemy_wave(
    enemies: &mut Vec<Enemy>,
    next_id: &mut u64,
    anchor: Option<Pos>,
    cap: usize,
    batch_limit: usize,
    health: i64,
    min_dist: i64,
    max_dist: i64,
)
    requires
        anchor matches Some(a) ==> valid_pos(a),
        0 < min_dist <= max_dist <= SPAWN_DIST_LIMIT,
        *old(next_id) + cap <= u64::MAX,
    ensures
        anchor is None || old(enemies)@.len() >= cap ==> final(enemies)@ == old(enemies)@
            && *final(next_id) == *old(next_id),
        final(enemies)@.len() == old(enemies)@.len() + spawn_len(
            old(enemies)@,
            anchor,
            cap as int,
            batch_limit as int,
        ),
        *final(next_id) == *old(next_id) + spawn_len(
            old(enemies)@,
            anchor,
            cap as int,
            batch_limit as int,
        ),
        forall|i: int| 0 <= i < old(enemies)@.len() ==> final(enemies)@[i] == old(enemies)@[i],
        forall|i: int| old(enemies)@.len() <= i < final(enemies)@.len()
            ==> #[trigger] final(enemies)@[i].id == *old(next_id) + i - old(enemies)@.len(),
        anchor matches Some(a) ==> forall|i: int|
            old(enemies)@.len() <= i < final(enemies)@.len() ==> spawned_around(
                #[trigger] final(enemies)@[i],
                a,
                health as int,
                min_dist as int,
                max_dist as int,
            ),
{
    match anchor {
        None => {},
        Some(a) => {
            let n = spawn_count(enemies.len(), cap, batch_limit);
            let ghost old_len = enemies@.len();
            let ghost old_next = *next_id;
            let mut j: usize = 0;
            while j < n
                invariant
                    valid_pos(a),
                    0 < min_dist <= max_dist <= SPAWN_DIST_LIMIT,
                    j <= n,
                    old_len == old(enemies)@.len(),
                    old_next == *old(next_id),
                    n == spec_spawn_count(old_len as int, cap as int, batch_limit as int),
                    n <= cap,
                    old_next + cap <= u64::MAX,
                    enemies@.len() == old_len + j,
                    *next_id == old_next + j,
                    forall|i: int| 0 <= i < old_len ==> enemies@[i] == old(enemies)@[i],
                    forall|i: int| old_len <= i < enemies@.len()
                        ==> #[trigger] enemies@[i].id == old_next + i - old_len,
                    forall|i: int| old_len <= i < enemies@.len() ==> spawned_around(
                        #[trigger] enemies@[i],
                        a,
                        health as int,
                        min_dist as int,
                        max_dist as int,
                    ),
                decreases n - j,
            {
                let p = get_random_spawn_position(a, min_dist, max_dist);
                let id = *next_id;
                enemies.push(Enemy { id, pos: p, health });
                *next_id = *next_id + 1;
                j = j + 1;
            }
        },
    }
}

/// The number of targets `spawn_enemy_wave` adds.
pub open spec fn spawn_len(enemies: Seq<Enemy>, anchor: Option<Pos>, cap: int, batch_limit: int) -> int {
    if anchor is None {
        0
    } else {
        spec_spawn_count(enemies.len() as int, cap, batch_limit)
    }
}

/// Advance every target one step toward the anchor. The direction is
/// recomputed from the current positions each tick; a target exactly at the
/// anchor stays in place, so no undefined direction ever reaches position
/// state.
/// How one movement step changes a single target: identity and health kept,
/// each coordinate advanced toward the anchor by at most `speed` without
/// overshooting — and a target already at the anchor does not move at all.
pub open spec fn moved_enemy(o: Enemy, n: Enemy, anchor: Pos, speed: int) -> bool {
    &&& n.id == o.id
    &&& n.health == o.health
    &&& n.pos.x == axis_step(o.pos.x as int, anchor.x as int, speed)
    &&& n.pos.y == axis_step(o.pos.y as int, anchor.y as int, speed)
    &&& valid_pos(n.pos)
    &&& o.pos == anchor ==> n.pos == anchor
}

pub fn update_enemy_transform(enemies: &mut Vec<Enemy>, anchor: Pos, speed: i64)
    requires
        valid_pos(anchor),
        0 <= speed,
        forall|i: int| 0 <= i < old(enemies)@.len() ==> valid_pos(#[trigger] old(enemies)@[i].pos),
    ensures
        final(enemies)@.len() == old(enemies)@.len(),
        forall|i: int| 0 <= i < old(enemies)@.len() ==> moved_enemy(
            old(enemies)@[i],
            #[trigger] final(enemies)@[i],
            anchor,
            speed as int,
        ),
{
    let mut i: usize = 0;
    while i < enemies.len()
        invariant
            valid_pos(anchor),
            0 <= speed,
            i <= enemies@.len(),
            enemies@.len() == old(enemies)@.len(),
            forall|k: int| 0 <= k < old(enemies)@.len() ==> valid_pos(
                #[trigger] old(enemies)@[k].pos,
            ),
            forall|k: int| i <= k < enemies@.len() ==> #[trigger] enemies@[k] == old(enemies)@[k],
            forall|k: int| 0 <= k < i ==> moved_enemy(
                old(enemies)@[k],
                #[trigger] enemies@[k],
                anchor,
                speed as int,
            ),
        decreases enemies@.len() - i,
    {
        let e = enemies[i];
        let p = step_toward(e.pos, anchor, speed);
        let ghost prev = enemies@;
        enemies.set(i, Enemy { id: e.id, pos: p, health: e.health });
        proof {
            assert(moved_enemy(old(enemies)@[i as int], enemies@[i as int], anchor, speed as int));
            assert forall|k: int| 0 <= k < i implies moved_enemy(
                old(enemies)@[k],
                #[trigger] enemies@[k],
                anchor,
                speed as int,
            ) by {
                assert(enemies@[k] == prev[k]);
            }
            assert forall|k: int|
                i + 1 <= k < enemies@.len() implies #[trigger] enemies@[k]
                == old(enemies)@[k] by {
                assert(enemies@[k] == prev[k]);
            }
        }
        i = i + 1;
    }
}

/// The targets of `s` that are still alive, in unchanged order.
pub open spec fn alive_set(s: Seq<Enemy>) -> Seq<Enemy> {
    s.filter(|e: Enemy| e.health > 0)
}

/// The removal pass: delete every target whose health has dropped to or
/// below zero, keeping the alive ones in order.
pub fn despawn_dead_enemies(enemies: &mut Vec<Enemy>)
    ensures
        final(enemies)@ == alive_set(old(enemies)@),
{
    let ghost orig = enemies@;
    let mut kept: Vec<Enemy> = Vec::new();
    let mut i: usize = 0;
    proof {
        assert(orig.take(0) =~= Seq::<Enemy>::empty());
        assert(kept@ =~= orig.take(0).filter(|e: Enemy| e.health > 0)) by {
            reveal(Seq::filter);
        }
    }
    while i < enemies.len()
        invariant
            i <= enemies@.len(),
            enemies@ == orig,
            kept@ == orig.take(i as int).filter(|e: Enemy| e.health > 0),
        decreases enemies@.len() - i,
    {
        broadcast use vstd::prelude::Seq::lemma_filter_push, vstd::prelude::Seq::lemma_take_succ_push;

        let e = enemies[i];
        if e.health > 0 {
            kept.push(e);
        }
        i = i + 1;
    }
    proof {
        assert(orig.take(orig.len() as int) =~= orig);
    }
    *enemies = kept;
}

/// Every target the removal pass keeps was present before it, and targets
/// keep their distinct identities through the pass.
pub proof fn lemma_alive_set_wf(s: Seq<Enemy>)
    ensures
        forall|e: Enemy| #[trigger] alive_set(s).contains(e) ==> s.contains(e),
        unique_enemy_ids(s) ==> unique_enemy_ids(alive_set(s)),
    decreases s.len(),
{
    broadcast use vstd::prelude::Seq::lemma_filter_push;

    let pred = |e: Enemy| e.health > 0;
    if s.len() == 0 {
        assert(alive_set(s) =~= s) by {
            reveal(Seq::filter);
        }
    } else {
        let dl = s.drop_last();
        let last = s.last();
        lemma_alive_set_wf(dl);
        assert(s =~= dl.push(last));
        assert(alive_set(s) == dl.push(last).filter(pred));
        assert forall|e: Enemy| #[trigger] alive_set(s).contains(e) implies s.contains(e) by {
            if pred(last) && e == last {
                assert(s[s.len() - 1] == last);
            } else {
                assert(alive_set(dl).contains(e));
                let m = choose|m: int| 0 <= m < dl.len() && dl[m] == e;
                assert(s[m] == e);
            }
        }
        if unique_enemy_ids(s) {
            assert(unique_enemy_ids(dl)) by {
                assert forall|i: int, j: int|
                    #![trigger dl[i].id, dl[j].id]
                    0 <= i < dl.len() && 0 <= j < dl.len() && i != j implies dl[i].id
                    != dl[j].id by {
                    assert(s[i].id != s[j].id);
                }
            }
            let a = alive_set(s);
            assert forall|i: int, j: int|
                #![trigger a[i].id, a[j].id]
                0 <= i < a.len() && 0 <= j < a.len() && i != j implies a[i].id != a[j].id by {
                let ad = alive_set(dl);
                if pred(last) {
                    assert(a == ad.push(last));
                    if i < ad.len() && j < ad.len() {
                        assert(ad[i].id != ad[j].id);
                    } else {
                        let m = if i < ad.len() {
                            i
                        } else {
                            j
                        };
                        assert(a[m] == ad[m]);
                        assert(ad.contains(ad[m]));
                        assert(dl.contains(ad[m]));
                        let w = choose|w: int| 0 <= w < dl.len() && dl[w] == ad[m];
                        assert(s[w].id != s[s.len() - 1].id);
                    }
                } else {
                    assert(a == ad);
                    assert(ad[i].id != ad[j].id);
                }
            }
        }
    }
}

/// Law: the removal pass despawns a dead target outright, and despawns
/// nothing else — a target still alive is kept exactly as often as it was
/// present, so no target is ever removed twice.
pub proof fn lemma_removal_pass(s: Seq<Enemy>, e: Enemy)
    ensures
        e.health <= 0 ==> !alive_set(s).contains(e),
        e.health > 0 ==> alive_set(s).to_multiset().count(e) == s.to_multiset().count(e),
    decreases s.len(),
{
    broadcast use vstd::seq_lib::group_to_multiset_ensures;
    broadcast use vstd::prelude::Seq::lemma_filter_push;

    let pred = |x: Enemy| x.health > 0;
    if s.len() == 0 {
        assert(alive_set(s) =~= s) by {
            reveal(Seq::filter);
        }
    } else {
        let dl = s.drop_last();
        lemma_removal_pass(dl, e);
        assert(s =~= dl.push(s.last()));
        assert(alive_set(s) == dl.push(s.last()).filter(pred));
        if e.health <= 0 {
            if alive_set(s).contains(e) {
                let j = choose|j: int| 0 <= j < alive_set(s).len() && alive_set(s)[j] == e;
                assert(pred(alive_set(s)[j])) by {
                    broadcast use vstd::prelude::Seq::lemma_filter_pred;

                }
            }
        }
    }
}

} // verus!
