//! The world: configuration, decorations, and the tick loop tying spawning,
//! movement, damage, index rebuilds and removal together.
use vstd::prelude::*;

use crate::collision::{
    entry_key, handle_projectile_enemy_collision, hit_count, index_items, index_wf, key_hit,
    key_in_circle, lemma_hit_count_bound, Collidable, SpatialIndex,
};
use crate::constants::{
    DAMAGE_LIMIT, HEALTH_LIMIT, NUM_WORLD_DECORATIONS, POS_LIMIT, SPAWN_DIST_LIMIT, WORLD_H,
    WORLD_W,
};
use crate::enemy::{
    alive_set, despawn_dead_enemies, lemma_alive_set_wf, lemma_spawn_respects_cap, moved_enemy,
    spawn_enemy_wave, spawn_len, spawned_around, unique_enemy_ids,
    update_enemy_transform, Enemy,
};
use crate::geom::{sq_dist, valid_pos, Pos};
use crate::rng::random_in_range;
use vstd::multiset::Multiset;

verus! {

/// A purely visual decoration: a sprite somewhere in the world rectangle.
#[derive(Clone, Copy, PartialEq, Eq, Structural, Debug)]
pub struct Decoration {
    pub pos: Pos,
    pub sprite_index: usize,
}

/// Scatter the fixed number of decorations uniformly over the world
/// rectangle, each with one of the two decoration sprites.
pub fn decorate_world() -> (ds: Vec<Decoration>)
    ensures
        ds@.len() == NUM_WORLD_DECORATIONS,
        forall|i: int| 0 <= i < ds@.len() ==> {
            let d = #[trigger] ds@[i];
            &&& -WORLD_W <= d.pos.x < WORLD_W
            &&& -WORLD_H <= d.pos.y < WORLD_H
            &&& valid_pos(d.pos)
            &&& (d.sprite_index == 24 || d.sprite_index == 25)
        },
{
    let mut ds: Vec<Decoration> = Vec::new();
    let mut n: usize = 0;
    while n < NUM_WORLD_DECORATIONS
        invariant
            n <= NUM_WORLD_DECORATIONS,
            ds@.len() == n,
            forall|i: int| 0 <= i < ds@.len() ==> {
                let d = #[trigger] ds@[i];
                &&& -WORLD_W <= d.pos.x < WORLD_W
                &&& -WORLD_H <= d.pos.y < WORLD_H
                &&& valid_pos(d.pos)
                &&& (d.sprite_index == 24 || d.sprite_index == 25)
            },
        decreases NUM_WORLD_DECORATIONS - n,
    {
        let x = random_in_range(-WORLD_W, WORLD_W);
        let y = random_in_range(-WORLD_H, WORLD_H);
        let sprite = random_in_range(24, 26);
        ds.push(Decoration { pos: Pos { x, y }, sprite_index: sprite as usize });
        n = n + 1;
    }
    ds
}

/// The configuration bundle of the simulation.
#[derive(Clone, Copy, PartialEq, Eq, Structural, Debug)]
pub struct SimConfig {
    pub cap: usize,
    pub batch_limit: usize,
    pub hit_radius: i64,
    pub damage_amount: i64,
    pub enemy_health: i64,
    pub enemy_speed: i64,
    pub spawn_min_dist: i64,
    pub spawn_max_dist: i64,
}

impl SimConfig {
    /// A configuration the simulation accepts.
    pub open spec fn wf(self) -> bool {
        &&& 0 <= self.hit_radius <= POS_LIMIT
        &&& 0 <= self.damage_amount <= DAMAGE_LIMIT
        &&& 0 < self.enemy_health <= HEALTH_LIMIT
        &&& 0 <= self.enemy_speed
        &&& 0 < self.spawn_min_dist <= self.spawn_max_dist <= SPAWN_DIST_LIMIT
    }
}

/// The key the index stores for a target: its position and identity.
pub open spec fn enemy_key(e: Enemy) -> (int, int, u64) {
    (e.pos.x as int, e.pos.y as int, e.id)
}

/// Rebuild the spatial index as a snapshot of the live targets: a full
/// replacement of the previous snapshot, holding exactly one entry per
/// target.
pub fn update_enemy_kd_tree(index: &mut SpatialIndex, enemies: &Vec<Enemy>)
    requires
        unique_enemy_ids(enemies@),
        forall|i: int| 0 <= i < enemies@.len() ==> valid_pos((#[trigger] enemies@[i]).pos),
    ensures
        index_items(*final(index)) == enemies@.map_values(|e: Enemy| enemy_key(e)).to_multiset(),
        index_wf(index_items(*final(index))),
{
    let mut entries: Vec<Collidable> = Vec::new();
    let mut i: usize = 0;
    while i < enemies.len()
        invariant
            i <= enemies@.len(),
            entries@.len() == i,
            forall|k: int| 0 <= k < i ==> #[trigger] entries@[k] == (Collidable {
                pos: enemies@[k].pos,
                id: enemies@[k].id,
            }),
        decreases enemies@.len() - i,
    {
        let e = enemies[i];
        entries.push(Collidable { pos: e.pos, id: e.id });
        i = i + 1;
    }
    index.rebuild(&entries);
    proof {
        broadcast use vstd::seq_lib::group_to_multiset_ensures;

        let keys = enemies@.map_values(|e: Enemy| enemy_key(e));
        assert(entries@.map_values(|e: Collidable| entry_key(e)) =~= keys);
        let items = index_items(*index);
        assert(items == keys.to_multiset());
        assert(keys.no_duplicates()) by {
            assert forall|a: int, b: int|
                0 <= a < keys.len() && 0 <= b < keys.len() && a != b implies keys[a]
                != keys[b] by {
                assert(enemies@[a].id != enemies@[b].id);
            }
        }
        keys.lemma_multiset_has_no_duplicates();
        assert forall|k: (int, int, u64)| #[trigger] items.count(k) <= 1 by {
            if items.count(k) > 0 {
                assert(items.contains(k));
            }
        }
        assert forall|k1: (int, int, u64), k2: (int, int, u64)|
            #[trigger] items.contains(k1) && #[trigger] items.contains(k2) && k1.2
            == k2.2 implies k1 == k2 by {
            assert(keys.contains(k1));
            assert(keys.contains(k2));
            let a = choose|a: int| 0 <= a < keys.len() && keys[a] == k1;
            let b = choose|b: int| 0 <= b < keys.len() && keys[b] == k2;
            if a != b {
                assert(enemies@[a].id != enemies@[b].id);
            }
        }
        assert forall|k: (int, int, u64)| #[trigger] items.contains(k) implies -POS_LIMIT <= k.0
            <= POS_LIMIT && -POS_LIMIT <= k.1 <= POS_LIMIT by {
            assert(keys.contains(k));
            let a = choose|a: int| 0 <= a < keys.len() && keys[a] == k;
            assert(valid_pos(enemies@[a].pos));
        }
    }
}

/// Law: against a snapshot taken from `enemies`, the radius-query condition
/// holds for an identity iff some target of `enemies` carries it at a
/// position within `r` of the center — so `query_radius` returns an
/// identity iff its target's position, as of the last rebuild, lies within
/// the radius.
pub proof fn lemma_snapshot_query(enemies: Seq<Enemy>, c: Pos, r: int, id: u64)
    ensures
        key_hit(enemies.map_values(|e: Enemy| enemy_key(e)).to_multiset(), c, r, id) <==> exists|
            i: int,
        |
            0 <= i < enemies.len() && (#[trigger] enemies[i]).id == id && sq_dist(
                c.x as int,
                c.y as int,
                enemies[i].pos.x as int,
                enemies[i].pos.y as int,
            ) <= r * r,
{
    broadcast use vstd::seq_lib::group_to_multiset_ensures;

    let keys = enemies.map_values(|e: Enemy| enemy_key(e));
    let items = keys.to_multiset();
    if key_hit(items, c, r, id) {
        let k = choose|k: (int, int, u64)|
            #[trigger] items.contains(k) && k.2 == id && key_in_circle(c, r, k);
        assert(keys.contains(k));
        let i = choose|i: int| 0 <= i < keys.len() && keys[i] == k;
        assert(enemies[i].id == id);
    }
    if exists|i: int|
        0 <= i < enemies.len() && (#[trigger] enemies[i]).id == id && sq_dist(
            c.x as int,
            c.y as int,
            enemies[i].pos.x as int,
            enemies[i].pos.y as int,
        ) <= r * r {
        let i = choose|i: int|
            0 <= i < enemies.len() && (#[trigger] enemies[i]).id == id && sq_dist(
                c.x as int,
                c.y as int,
                enemies[i].pos.x as int,
                enemies[i].pos.y as int,
            ) <= r * r;
        assert(keys[i] == enemy_key(enemies[i]));
        assert(keys.contains(keys[i]));
        assert(items.contains(keys[i]) && keys[i].2 == id && key_in_circle(c, r, keys[i]));
    }
}

/// What the tick's wave phase does to the targets and the fresh-identity
/// counter: without the spawn signal, nothing; with it, exactly the wave of
/// `spawn_enemy_wave` — the old targets kept in place, `spawn_len` new ones
/// behind them with sequential fresh identities, each spawned around the
/// anchor when one exists.
pub open spec fn wave_phase(
    pre: Seq<Enemy>,
    post: Seq<Enemy>,
    next_pre: u64,
    next_post: u64,
    anchor: Option<Pos>,
    config: SimConfig,
    spawn_now: bool,
) -> bool {
    if !spawn_now {
        post == pre && next_post == next_pre
    } else {
        &&& post.len() == pre.len() + spawn_len(
            pre,
            anchor,
            config.cap as int,
            config.batch_limit as int,
        )
        &&& next_post == next_pre + spawn_len(
            pre,
            anchor,
            config.cap as int,
            config.batch_limit as int,
        )
        &&& forall|i: int| 0 <= i < pre.len() ==> #[trigger] post[i] == pre[i]
        &&& forall|i: int| pre.len() <= i < post.len() ==> (#[trigger] post[i]).id == next_pre + i
            - pre.len()
        &&& anchor matches Some(a) ==> forall|i: int|
            pre.len() <= i < post.len() ==> spawned_around(
                #[trigger] post[i],
                a,
                config.enemy_health as int,
                config.spawn_min_dist as int,
                config.spawn_max_dist as int,
            )
    }
}

/// What the tick's movement phase does: nothing without an anchor, else one
/// homing step per target, as `update_enemy_transform` describes it.
pub open spec fn move_phase(pre: Seq<Enemy>, post: Seq<Enemy>, anchor: Option<Pos>, speed: int) -> bool {
    match anchor {
        None => post == pre,
        Some(a) => post.len() == pre.len() && forall|i: int|
            0 <= i < pre.len() ==> moved_enemy(pre[i], #[trigger] post[i], a, speed),
    }
}

/// What the tick's damage phase does: identities and positions kept, and
/// each target's health lowered by the damage amount once per projectile
/// within the hit radius of its indexed position, as
/// `handle_projectile_enemy_collision` describes it.
pub open spec fn damage_phase(
    pre: Seq<Enemy>,
    post: Seq<Enemy>,
    items: Multiset<(int, int, u64)>,
    ps: Seq<Pos>,
    radius: int,
    damage: int,
) -> bool {
    &&& post.len() == pre.len()
    &&& forall|i: int| 0 <= i < pre.len() ==> (#[trigger] post[i]).id == pre[i].id && post[i].pos
        == pre[i].pos
    &&& forall|i: int| 0 <= i < pre.len() ==> (#[trigger] post[i]).health == pre[i].health
        - damage * hit_count(items, pre[i].id, ps, radius)
}

/// Well-formed targets: distinct identities below `next_id`, valid
/// positions, health no higher than the starting amount.
pub open spec fn targets_wf(s: Seq<Enemy>, enemy_health: int, next_id: u64) -> bool {
    &&& unique_enemy_ids(s)
    &&& forall|i: int| 0 <= i < s.len() ==> valid_pos((#[trigger] s[i]).pos)
    &&& forall|i: int| 0 <= i < s.len() ==> (#[trigger] s[i]).health <= enemy_health
    &&& forall|i: int| 0 <= i < s.len() ==> (#[trigger] s[i]).id < next_id
}

/// The whole simulation state: configuration, live targets, the spatial
/// index snapshot, and the next fresh target identity.
pub struct World {
    pub config: SimConfig,
    pub enemies: Vec<Enemy>,
    pub index: SpatialIndex,
    pub next_id: u64,
}

impl World {
    /// The invariant every tick preserves: a well-formed configuration, at
    /// most `cap` targets, all well formed and alive, and a well-formed
    /// index snapshot.
    pub open spec fn wf(self) -> bool {
        &&& self.config.wf()
        &&& self.enemies@.len() <= self.config.cap
        &&& targets_wf(self.enemies@, self.config.enemy_health as int, self.next_id)
        &&& forall|i: int| 0 <= i < self.enemies@.len() ==> (#[trigger] self.enemies@[i]).health
            > 0
        &&& index_wf(index_items(self.index))
    }

    /// A fresh world: no targets, an empty index.
    pub fn new(config: SimConfig) -> (w: World)
        requires
            config.wf(),
        ensures
            w.wf(),
            w.config == config,
            w.enemies@.len() == 0,
            w.next_id == 0,
            index_items(w.index) == Multiset::<(int, int, u64)>::empty(),
    {
        World { config, enemies: Vec::new(), index: SpatialIndex::empty(), next_id: 0 }
    }

    /// One simulation tick, with the phases in their fixed order: spawn a
    /// wave when the spawn timer says so, move every target toward the
    /// anchor, apply projectile damage through the index snapshot, rebuild
    /// the snapshot when the rebuild timer says so, and finally despawn
    /// dead targets. The anchor and the projectile positions come in from
    /// the caller each tick; the timers come in as booleans.
    pub fn tick(
        &mut self,
        anchor: Option<Pos>,
        projectiles: &Vec<Pos>,
        spawn_now: bool,
        rebuild_now: bool,
    )
        requires
            old(self).wf(),
            anchor matches Some(a) ==> valid_pos(a),
            forall|i: int| 0 <= i < projectiles@.len() ==> valid_pos(#[trigger] projectiles@[i]),
            projectiles@.len() <= 1_000_000_000,
            old(self).next_id + old(self).config.cap <= u64::MAX,
        ensures
            final(self).wf(),
            final(self).config == old(self).config,
            final(self).enemies@.len() <= old(self).config.cap,
            final(self).next_id == old(self).next_id + if spawn_now {
                spawn_len(
                    old(self).enemies@,
                    anchor,
                    old(self).config.cap as int,
                    old(self).config.batch_limit as int,
                )
            } else {
                0
            },
            !spawn_now || anchor is None ==> final(self).enemies@.len() <= old(
                self,
            ).enemies@.len(),
            !rebuild_now ==> index_items(final(self).index) == index_items(old(self).index),
            forall|i: int| 0 <= i < final(self).enemies@.len()
                ==> (#[trigger] final(self).enemies@[i]).health > 0,
            exists|spawned: Seq<Enemy>, moved: Seq<Enemy>, damaged: Seq<Enemy>|
                #![trigger wave_phase(old(self).enemies@, spawned, old(self).next_id, final(self).next_id, anchor, old(self).config, spawn_now), move_phase(spawned, moved, anchor, old(self).config.enemy_speed as int), damage_phase(moved, damaged, index_items(old(self).index), projectiles@, old(self).config.hit_radius as int, old(self).config.damage_amount as int)]
                {
                    &&& wave_phase(
                        old(self).enemies@,
                        spawned,
                        old(self).next_id,
                        final(self).next_id,
                        anchor,
                        old(self).config,
                        spawn_now,
                    )
                    &&& move_phase(spawned, moved, anchor, old(self).config.enemy_speed as int)
                    &&& damage_phase(
                        moved,
                        damaged,
                        index_items(old(self).index),
                        projectiles@,
                        old(self).config.hit_radius as int,
                        old(self).config.damage_amount as int,
                    )
                    &&& final(self).enemies@ == alive_set(damaged)
                    &&& rebuild_now ==> index_items(final(self).index) == damaged.map_values(
                        |e: Enemy| enemy_key(e),
                    ).to_multiset()
                },
    {
        let cfg = self.config;
        let ghost n0 = self.next_id;
        // Spawn a wave.
        if spawn_now {
            let ghost e0 = self.enemies@;
            spawn_enemy_wave(
                &mut self.enemies,
                &mut self.next_id,
                anchor,
                cfg.cap,
                cfg.batch_limit,
                cfg.enemy_health,
                cfg.spawn_min_dist,
                cfg.spawn_max_dist,
            );
            proof {
                lemma_spawn_respects_cap(e0.len() as int, cfg.cap as int, cfg.batch_limit as int);
                let s = self.enemies@;
                assert forall|i: int, j: int|
                    #![trigger s[i].id, s[j].id]
                    0 <= i < s.len() && 0 <= j < s.len() && i != j implies s[i].id != s[j].id by {
                    if i < e0.len() && j < e0.len() {
                        assert(e0[i].id != e0[j].id);
                    } else if i >= e0.len() && j >= e0.len() {
                        assert(s[i].id == n0 + i - e0.len());
                        assert(s[j].id == n0 + j - e0.len());
                    } else {
                        let o = if i < e0.len() {
                            i
                        } else {
                            j
                        };
                        let w = if i < e0.len() {
                            j
                        } else {
                            i
                        };
                        assert(s[o].id == e0[o].id && e0[o].id < n0);
                        assert(s[w].id == n0 + w - e0.len());
                    }
                }
            }
        }
        let ghost s1 = self.enemies@;
        let ghost next1 = self.next_id;
        proof {
            assert(wave_phase(old(self).enemies@, s1, n0, next1, anchor, cfg, spawn_now));
        }
        // Move every target toward the anchor.
        match anchor {
            None => {},
            Some(a) => {
                let ghost e1 = self.enemies@;
                update_enemy_transform(&mut self.enemies, a, cfg.enemy_speed);
                proof {
                    let s = self.enemies@;
                    assert forall|i: int, j: int|
                        #![trigger s[i].id, s[j].id]
                        0 <= i < s.len() && 0 <= j < s.len() && i != j implies s[i].id
                        != s[j].id by {
                        assert(e1[i].id != e1[j].id);
                    }
                }
            },
        }
        // Apply projectile damage through the index snapshot.
        let ghost e2 = self.enemies@;
        proof {
            assert(move_phase(s1, e2, anchor, cfg.enemy_speed as int));
            assert(projectiles@.len() * cfg.damage_amount <= 1_000_000_000_000_000_000)
                by (nonlinear_arith)
                requires
                    0 <= projectiles@.len() <= 1_000_000_000,
                    0 <= cfg.damage_amount <= 1_000_000_000,
            ;
        }
        handle_projectile_enemy_collision(
            &mut self.enemies,
            &self.index,
            projectiles,
            cfg.hit_radius,
            cfg.damage_amount,
        );
        proof {
            let s = self.enemies@;
            let items = index_items(self.index);
            assert forall|i: int, j: int|
                #![trigger s[i].id, s[j].id]
                0 <= i < s.len() && 0 <= j < s.len() && i != j implies s[i].id != s[j].id by {
                assert(e2[i].id != e2[j].id);
            }
            assert forall|i: int| 0 <= i < s.len() implies (#[trigger] s[i]).health
                <= cfg.enemy_health by {
                let hc = hit_count(items, e2[i].id, projectiles@, cfg.hit_radius as int);
                lemma_hit_count_bound(items, e2[i].id, projectiles@, cfg.hit_radius as int);
                assert(0 <= cfg.damage_amount * hc) by (nonlinear_arith)
                    requires 0 <= cfg.damage_amount, 0 <= hc;
            }
        }
        // Rebuild the index snapshot.
        let ghost e3 = self.enemies@;
        proof {
            assert(damage_phase(
                e2,
                e3,
                index_items(old(self).index),
                projectiles@,
                cfg.hit_radius as int,
                cfg.damage_amount as int,
            ));
        }
        if rebuild_now {
            update_enemy_kd_tree(&mut self.index, &self.enemies);
        }
        // Despawn dead targets.
        despawn_dead_enemies(&mut self.enemies);
        proof {
            broadcast use vstd::prelude::Seq::lemma_filter_len, vstd::prelude::Seq::lemma_filter_pred;

            lemma_alive_set_wf(e3);
            let s = self.enemies@;
            assert(s.len() <= e3.len());
            assert forall|i: int| 0 <= i < s.len() implies valid_pos((#[trigger] s[i]).pos) && s[i].health
                <= cfg.enemy_health && s[i].id < self.next_id && s[i].health > 0 by {
                assert(s.contains(s[i]));
                assert(e3.contains(s[i]));
                let m = choose|m: int| 0 <= m < e3.len() && e3[m] == s[i];
                assert(valid_pos(e3[m].pos) && e3[m].health <= cfg.enemy_health && e3[m].id
                    < self.next_id);
                assert(alive_set(e3)[i] == s[i]);
            }
            // The three intermediate states witness the phase description.
            assert(wave_phase(
                old(self).enemies@,
                s1,
                old(self).next_id,
                self.next_id,
                anchor,
                old(self).config,
                spawn_now,
            ));
            assert(move_phase(s1, e2, anchor, old(self).config.enemy_speed as int));
            assert(damage_phase(
                e2,
                e3,
                index_items(old(self).index),
                projectiles@,
                old(self).config.hit_radius as int,
                old(self).config.damage_amount as int,
            ));
            assert(self.enemies@ == alive_set(e3));
            assert(rebuild_now ==> index_items(self.index) == e3.map_values(
                |e: Enemy| enemy_key(e),
            ).to_multiset());
        }
    }
}

} // verus!

