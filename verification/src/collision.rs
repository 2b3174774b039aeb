//! The spatial index over target positions: a k-d tree snapshot rebuilt in
//! full, queried for all targets within a radius of a point (boundary
//! included).
//!
//! The tree itself comes from the `kd_tree` crate and is opaque to the
//! verifier: `index_items` names its contents, the two `external_body`
//! wrappers state what building and box-querying do to them, and the
//! inclusive circle filter on top of the box query is verified code.
use vstd::multiset::Multiset;
use vstd::prelude::*;

use crate::constants::{DAMAGE_LIMIT, POS_LIMIT};
use crate::enemy::{unique_enemy_ids, Enemy};
use crate::geom::{lemma_square_le, sq_dist, valid_pos, within_distance, Pos};

verus! {

/// One indexed target: its position as of the last rebuild, and its identity.
#[derive(Clone, Copy, PartialEq, Eq, Structural, Debug)]
pub struct Collidable {
    pub pos: Pos,
    pub id: u64,
}

/// The mathematical key of an entry: its coordinates and identity as plain
/// integers. Injective: equal keys mean equal entries.
pub open spec fn entry_key(e: Collidable) -> (int, int, u64) {
    (e.pos.x as int, e.pos.y as int, e.id)
}

/// Whether a key's position lies in the closed box `[lo, hi]`.
pub open spec fn key_in_box(lo: Pos, hi: Pos, k: (int, int, u64)) -> bool {
    lo.x <= k.0 <= hi.x && lo.y <= k.1 <= hi.y
}

/// Whether a key's position lies within distance `r` of `c`, boundary
/// included.
pub open spec fn key_in_circle(c: Pos, r: int, k: (int, int, u64)) -> bool {
    sq_dist(c.x as int, c.y as int, k.0, k.1) <= r * r
}

/// Whether some indexed entry with identity `id` lies within distance `r`
/// of `c`.
pub open spec fn key_hit(items: Multiset<(int, int, u64)>, c: Pos, r: int, id: u64) -> bool {
    exists|k: (int, int, u64)| #[trigger] items.contains(k) && k.2 == id && key_in_circle(c, r, k)
}

/// A well-formed index content: every position valid, no entry twice, and
/// no identity at two positions. The caller upholds this by inserting each
/// target at most once per rebuild, with a valid position.
pub open spec fn index_wf(items: Multiset<(int, int, u64)>) -> bool {
    &&& forall|k: (int, int, u64)| #[trigger] items.count(k) <= 1
    &&& forall|k1: (int, int, u64), k2: (int, int, u64)|
        #[trigger] items.contains(k1) && #[trigger] items.contains(k2) && k1.2 == k2.2 ==> k1 == k2
    &&& forall|k: (int, int, u64)| #[trigger] items.contains(k)
        ==> -POS_LIMIT <= k.0 <= POS_LIMIT && -POS_LIMIT <= k.1 <= POS_LIMIT
}

/// A static snapshot of target positions supporting radius queries. Holds a
/// k-d tree of the `kd_tree` crate; the verifier sees its contents only
/// through `index_items`.
#[verifier::external_body]
pub struct SpatialIndex {
    tree: kd_tree::KdMap<[i64; 2], u64>,
}

/// The keys of the entries the index holds, as a multiset: rebuilding may
/// reorder entries, and a key inserted twice is held twice.
pub uninterp spec fn index_items(idx: SpatialIndex) -> Multiset<(int, int, u64)>;

/// Relies on `kd_tree::KdTreeN::build`: the tree holds exactly the items it
/// was built from — build sorts them into tree order, adding and dropping
/// none.
#[verifier::external_body]
fn index_build(entries: &Vec<Collidable>) -> (idx: SpatialIndex)
    ensures
        index_items(idx) == entries@.map_values(|e: Collidable| entry_key(e)).to_multiset(),
{
    SpatialIndex {
        tree: kd_tree::KdMap::build(
            entries.iter().map(|e| ([e.pos.x, e.pos.y], e.id)).collect(),
        ),
    }
}

/// Relies on `kd_tree::KdSliceN::within`: on a tree made by
/// `kd_tree::KdTreeN::build` it returns exactly the items whose coordinates
/// lie in the closed box `[lo, hi]`, each as often as the tree holds it.
#[verifier::external_body]
fn index_within_box(idx: &SpatialIndex, lo: Pos, hi: Pos) -> (r: Vec<Collidable>)
    requires
        lo.x <= hi.x,
        lo.y <= hi.y,
    ensures
        r@.map_values(|e: Collidable| entry_key(e)).to_multiset() == index_items(*idx).filter(
            |k: (int, int, u64)| key_in_box(lo, hi, k),
        ),
{
    idx.tree
        .within(&[[lo.x, lo.y], [hi.x, hi.y]])
        .iter()
        .map(|e| Collidable { pos: Pos { x: e.0[0], y: e.0[1] }, id: e.1 })
        .collect()
}

impl SpatialIndex {
    /// An index holding nothing: every query on it returns nothing.
    pub fn empty() -> (idx: SpatialIndex)
        ensures
            index_items(idx) =~= Multiset::<(int, int, u64)>::empty(),
            index_wf(index_items(idx)),
    {
        let entries: Vec<Collidable> = Vec::new();
        let idx = index_build(&entries);
        proof {
            broadcast use vstd::seq_lib::group_to_multiset_ensures;

            let items = index_items(idx);
            assert forall|k: (int, int, u64)| items.count(k) == 0 by {
                if items.count(k) > 0 {
                    assert(entries@.map_values(|e: Collidable| entry_key(e)).contains(k));
                }
            }
            assert(items =~= Multiset::<(int, int, u64)>::empty());
        }
        idx
    }

    /// Replace the whole content of the index with the given entries: a full
    /// replacement, never a merge, so nothing of the previous snapshot
    /// survives.
    pub fn rebuild(&mut self, entries: &Vec<Collidable>)
        ensures
            index_items(*final(self)) == entries@.map_values(
                |e: Collidable| entry_key(e),
            ).to_multiset(),
    {
        *self = index_build(entries);
    }

    /// All indexed identities whose stored position lies within `radius` of
    /// `center` — Euclidean distance, boundary included — each exactly once.
    pub fn query_radius(&self, center: Pos, radius: i64) -> (ids: Vec<u64>)
        requires
            index_wf(index_items(*self)),
            valid_pos(center),
            0 <= radius <= POS_LIMIT,
        ensures
            forall|id: u64| #[trigger] ids@.contains(id) <==> key_hit(
                index_items(*self),
                center,
                radius as int,
                id,
            ),
            ids@.no_duplicates(),
    {
        let ghost items = index_items(*self);
        let ghost r = radius as int;
        let lo = Pos { x: center.x - radius, y: center.y - radius };
        let hi = Pos { x: center.x + radius, y: center.y + radius };
        let ghost boxp = |k: (int, int, u64)| key_in_box(lo, hi, k);
        let entries = index_within_box(self, lo, hi);
        let ghost keys = entries@.map_values(|e: Collidable| entry_key(e));
        proof {
            broadcast use vstd::seq_lib::group_to_multiset_ensures;

            assert forall|x: (int, int, u64)|
                keys.to_multiset().contains(x) implies keys.to_multiset().count(x) == 1 by {
                assert(items.filter(boxp).count(x) <= items.count(x));
            }
            keys.lemma_multiset_has_no_duplicates_conv();
            assert forall|j: int| 0 <= j < keys.len() implies #[trigger] items.contains(keys[j])
                && key_in_box(lo, hi, keys[j]) by {
                assert(keys.to_multiset().count(keys[j]) > 0);
                assert(items.filter(boxp).count(keys[j]) > 0);
            }
        }
        let mut ids: Vec<u64> = Vec::new();
        let mut i: usize = 0;
        while i < entries.len()
            invariant
                index_wf(items),
                valid_pos(center),
                0 <= radius <= POS_LIMIT,
                r == radius as int,
                i <= entries.len(),
                keys == entries@.map_values(|e: Collidable| entry_key(e)),
                keys.no_duplicates(),
                forall|j: int| 0 <= j < keys.len() ==> #[trigger] items.contains(keys[j]),
                forall|id: u64| #[trigger] ids@.contains(id) ==> exists|j: int|
                    0 <= j < i && #[trigger] keys[j].2 == id && key_in_circle(center, r, keys[j]),
                forall|j: int| 0 <= j < i && key_in_circle(center, r, #[trigger] keys[j])
                    ==> ids@.contains(keys[j].2),
                ids@.no_duplicates(),
            decreases entries.len() - i,
        {
            let e = entries[i];
            proof {
                assert(entry_key(e) == keys[i as int]);
                assert(items.contains(keys[i as int]));
            }
            if within_distance(center, e.pos, radius) {
                proof {
                    if ids@.contains(e.id) {
                        let j = choose|j: int|
                            0 <= j < i && #[trigger] keys[j].2 == e.id && key_in_circle(
                                center,
                                r,
                                keys[j],
                            );
                        assert(items.contains(keys[j]));
                        assert(keys[j] == keys[i as int]);
                    }
                }
                let ghost prev = ids@;
                ids.push(e.id);
                proof {
                    assert(key_in_circle(center, r, keys[i as int]));
                    assert forall|id: u64| #[trigger] ids@.contains(id) implies exists|j: int|
                        0 <= j < i + 1 && #[trigger] keys[j].2 == id && key_in_circle(
                            center,
                            r,
                            keys[j],
                        ) by {
                        let m = choose|m: int| 0 <= m < ids@.len() && ids@[m] == id;
                        if m < prev.len() {
                            assert(prev.contains(id));
                            let j = choose|j: int|
                                0 <= j < i && #[trigger] keys[j].2 == id && key_in_circle(
                                    center,
                                    r,
                                    keys[j],
                                );
                            assert(0 <= j < i + 1 && keys[j].2 == id && key_in_circle(
                                center,
                                r,
                                keys[j],
                            ));
                        } else {
                            assert(id == e.id);
                            assert(0 <= i < i + 1 && keys[i as int].2 == id && key_in_circle(
                                center,
                                r,
                                keys[i as int],
                            ));
                        }
                    }
                    assert forall|j: int|
                        0 <= j < i + 1 && key_in_circle(center, r, #[trigger] keys[j])
                        implies ids@.contains(keys[j].2) by {
                        if j < i {
                            assert(prev.contains(keys[j].2));
                            let m = choose|m: int| 0 <= m < prev.len() && prev[m] == keys[j].2;
                            assert(ids@[m] == keys[j].2);
                        } else {
                            assert(ids@[prev.len() as int] == e.id);
                        }
                    }
                }
            }
            i = i + 1;
        }
        proof {
            assert forall|id: u64| #[trigger] ids@.contains(id) implies key_hit(
                items,
                center,
                r,
                id,
            ) by {
                let j = choose|j: int|
                    0 <= j < keys.len() && #[trigger] keys[j].2 == id && key_in_circle(
                        center,
                        r,
                        keys[j],
                    );
                assert(items.contains(keys[j]));
            }
            assert forall|id: u64| key_hit(items, center, r, id) implies ids@.contains(id) by {
                broadcast use vstd::seq_lib::group_to_multiset_ensures;

                let k = choose|k: (int, int, u64)|
                    #[trigger] items.contains(k) && k.2 == id && key_in_circle(center, r, k);
                assert(key_in_box(lo, hi, k)) by {
                    let dx = center.x - k.0;
                    let dy = center.y - k.1;
                    assert(dx * dx >= 0 && dy * dy >= 0) by (nonlinear_arith);
                    lemma_square_le(dx, r);
                    lemma_square_le(dy, r);
                }
                assert(items.filter(boxp).count(k) > 0);
                assert(keys.to_multiset().count(k) > 0);
                assert(keys.contains(k));
                let j = choose|j: int| 0 <= j < keys.len() && keys[j] == k;
                assert(key_in_circle(center, r, keys[j]));
            }
        }
        ids
    }
}

/// Law: a rebuild replaces the content fully. After rebuilding from
/// `entries`, any identity that any radius query can return is the identity
/// of one of `entries`: nothing of an earlier snapshot survives.
pub proof fn lemma_rebuild_replaces(entries: Seq<Collidable>, c: Pos, r: int, id: u64)
    requires
        key_hit(entries.map_values(|e: Collidable| entry_key(e)).to_multiset(), c, r, id),
    ensures
        exists|j: int| 0 <= j < entries.len() && (#[trigger] entries[j]).id == id,
{
    broadcast use vstd::seq_lib::group_to_multiset_ensures;

    let keys = entries.map_values(|e: Collidable| entry_key(e));
    let k = choose|k: (int, int, u64)|
        #[trigger] keys.to_multiset().contains(k) && k.2 == id && key_in_circle(c, r, k);
    assert(keys.contains(k));
    let j = choose|j: int| 0 <= j < keys.len() && keys[j] == k;
    assert(entries[j].id == id);
}

/// The number of projectiles in `ps` that score a hit on identity `id`:
/// those whose position lies within `r` of the position the index stores
/// for `id`.
pub open spec fn hit_count(
    items: Multiset<(int, int, u64)>,
    id: u64,
    ps: Seq<Pos>,
    r: int,
) -> int
    decreases ps.len(),
{
    if ps.len() == 0 {
        0
    } else {
        hit_count(items, id, ps.drop_last(), r) + if key_hit(items, ps.last(), r, id) {
            1int
        } else {
            0int
        }
    }
}

/// A hit count never exceeds the number of projectiles.
pub proof fn lemma_hit_count_bound(items: Multiset<(int, int, u64)>, id: u64, ps: Seq<Pos>, r: int)
    ensures
        0 <= hit_count(items, id, ps, r) <= ps.len(),
    decreases ps.len(),
{
    if ps.len() > 0 {
        lemma_hit_count_bound(items, id, ps.drop_last(), r);
    }
}

/// Law: hits accumulate — the hit count over projectiles of successive
/// ticks is the sum of the per-tick hit counts, so damage taken over any
/// span of ticks is the per-hit amount times the total number of hits.
pub proof fn lemma_hit_count_add(
    items: Multiset<(int, int, u64)>,
    id: u64,
    ps1: Seq<Pos>,
    ps2: Seq<Pos>,
    r: int,
)
    ensures
        hit_count(items, id, ps1 + ps2, r) == hit_count(items, id, ps1, r) + hit_count(
            items,
            id,
            ps2,
            r,
        ),
    decreases ps2.len(),
{
    if ps2.len() == 0 {
        assert(ps1 + ps2 =~= ps1);
    } else {
        assert((ps1 + ps2).drop_last() =~= ps1 + ps2.drop_last());
        assert((ps1 + ps2).last() == ps2.last());
        lemma_hit_count_add(items, id, ps1, ps2.drop_last(), r);
    }
}

/// Extending the projectile prefix by one adds that projectile's hit, if
/// any.
proof fn lemma_hit_count_take(
    items: Multiset<(int, int, u64)>,
    id: u64,
    ps: Seq<Pos>,
    r: int,
    i: int,
)
    requires
        0 <= i < ps.len(),
    ensures
        hit_count(items, id, ps.take(i + 1), r) == hit_count(items, id, ps.take(i), r) + if key_hit(
            items,
            ps[i],
            r,
            id,
        ) {
            1int
        } else {
            0int
        },
{
    let t = ps.take(i + 1);
    assert(t.drop_last() =~= ps.take(i));
    assert(t.last() == ps[i]);
}

/// The index of the target with the given identity, if one is present.
fn find_enemy(enemies: &Vec<Enemy>, id: u64) -> (r: Option<usize>)
    ensures
        match r {
            Some(k) => k < enemies@.len() && enemies@[k as int].id == id,
            None => forall|i: int| 0 <= i < enemies@.len() ==> (#[trigger] enemies@[i]).id != id,
        },
{
    let mut i: usize = 0;
    while i < enemies.len()
        invariant
            i <= enemies@.len(),
            forall|k: int| 0 <= k < i ==> (#[trigger] enemies@[k]).id != id,
        decreases enemies@.len() - i,
    {
        if enemies[i].id == id {
            return Some(i);
        }
        i = i + 1;
    }
    None
}

/// Apply projectile damage: for each projectile, every target whose indexed
/// position lies within the hit radius loses the fixed damage amount. One
/// projectile may damage several targets, one target may be damaged by
/// several projectiles in the same pass, damage accumulates without
/// clamping, and projectiles pass through. Targets are matched through the
/// index snapshot, so hits go by positions as of the last rebuild.
pub fn handle_projectile_enemy_collision(
    enemies: &mut Vec<Enemy>,
    index: &SpatialIndex,
    projectiles: &Vec<Pos>,
    hit_radius: i64,
    damage: i64,
)
    requires
        index_wf(index_items(*index)),
        forall|i: int| 0 <= i < projectiles@.len() ==> valid_pos(#[trigger] projectiles@[i]),
        0 <= hit_radius <= POS_LIMIT,
        0 <= damage <= DAMAGE_LIMIT,
        projectiles@.len() * damage <= 1_000_000_000_000_000_000,
        unique_enemy_ids(old(enemies)@),
        forall|i: int| 0 <= i < old(enemies)@.len()
            ==> -1_000_000_000 <= (#[trigger] old(enemies)@[i]).health <= 1_000_000_000,
    ensures
        final(enemies)@.len() == old(enemies)@.len(),
        forall|i: int| 0 <= i < old(enemies)@.len() ==> (#[trigger] final(enemies)@[i]).id == old(
            enemies,
        )@[i].id && final(enemies)@[i].pos == old(enemies)@[i].pos,
        forall|i: int| 0 <= i < old(enemies)@.len() ==> (#[trigger] final(enemies)@[i]).health
            == old(enemies)@[i].health - damage * hit_count(
            index_items(*index),
            old(enemies)@[i].id,
            projectiles@,
            hit_radius as int,
        ),
{
    let ghost items = index_items(*index);
    let ghost r = hit_radius as int;
    let ghost ps = projectiles@;
    let ghost orig = old(enemies)@;
    proof {
        assert(ps.take(0) =~= Seq::<Pos>::empty());
    }
    let mut pi: usize = 0;
    while pi < projectiles.len()
        invariant
            items == index_items(*index),
            index_wf(items),
            ps == projectiles@,
            r == hit_radius as int,
            orig == old(enemies)@,
            forall|i: int| 0 <= i < ps.len() ==> valid_pos(#[trigger] ps[i]),
            0 <= hit_radius <= POS_LIMIT,
            0 <= damage <= DAMAGE_LIMIT,
            ps.len() * damage <= 1_000_000_000_000_000_000,
            unique_enemy_ids(orig),
            forall|i: int| 0 <= i < orig.len()
                ==> -1_000_000_000 <= (#[trigger] orig[i]).health <= 1_000_000_000,
            pi <= ps.len(),
            enemies@.len() == orig.len(),
            forall|i: int| 0 <= i < orig.len() ==> (#[trigger] enemies@[i]).id == orig[i].id
                && enemies@[i].pos == orig[i].pos,
            forall|i: int| 0 <= i < orig.len() ==> (#[trigger] enemies@[i]).health
                == orig[i].health - damage * hit_count(items, orig[i].id, ps.take(pi as int), r),
        decreases ps.len() - pi,
    {
        let p = projectiles[pi];
        let ids = index.query_radius(p, hit_radius);
        let ghost base = enemies@;
        proof {
            assert(ids@.take(0) =~= Seq::<u64>::empty());
        }
        let mut j: usize = 0;
        while j < ids.len()
            invariant
                items == index_items(*index),
                index_wf(items),
                orig == old(enemies)@,
                0 <= damage <= DAMAGE_LIMIT,
                ps.len() * damage <= 1_000_000_000_000_000_000,
                pi < ps.len(),
                r == hit_radius as int,
                p == ps[pi as int],
                unique_enemy_ids(orig),
                forall|i: int| 0 <= i < orig.len()
                    ==> -1_000_000_000 <= (#[trigger] orig[i]).health <= 1_000_000_000,
                forall|id: u64| #[trigger] ids@.contains(id) <==> key_hit(items, p, r, id),
                ids@.no_duplicates(),
                j <= ids@.len(),
                enemies@.len() == orig.len(),
                forall|i: int| 0 <= i < orig.len() ==> (#[trigger] enemies@[i]).id == orig[i].id
                    && enemies@[i].pos == orig[i].pos,
                forall|i: int| 0 <= i < orig.len() ==> (#[trigger] enemies@[i]).health
                    == orig[i].health - damage * hit_count(items, orig[i].id, ps.take(pi as int), r)
                    - damage * (if ids@.take(j as int).contains(orig[i].id) {
                    1int
                } else {
                    0int
                }),
            decreases ids@.len() - j,
        {
            broadcast use vstd::seq_lib::group_seq_properties;

            let id = ids[j];
            let ghost prev = enemies@;
            proof {
                assert(ids@.take(j + 1) =~= ids@.take(j as int).push(id));
                assert(!ids@.take(j as int).contains(id)) by {
                    if ids@.take(j as int).contains(id) {
                        let m = choose|m: int| 0 <= m < j && ids@.take(j as int)[m] == id;
                        assert(ids@[m] == ids@[j as int]);
                    }
                }
            }
            match find_enemy(enemies, id) {
                None => {
                    proof {
                        assert forall|i: int| 0 <= i < orig.len() implies ids@.take(
                            j + 1,
                        ).contains((#[trigger] orig[i]).id) == ids@.take(j as int).contains(
                            orig[i].id,
                        ) by {
                            assert(enemies@[i].id == orig[i].id);
                        }
                    }
                },
                Some(k) => {
                    let e = enemies[k];
                    proof {
                        let hc = hit_count(items, orig[k as int].id, ps.take(pi as int), r);
                        lemma_hit_count_bound(items, orig[k as int].id, ps.take(pi as int), r);
                        assert(orig[k as int].id == id);
                        assert(e.health == orig[k as int].health - damage * hc);
                        assert(0 <= damage * hc && damage * hc + damage <= ps.len()
                            * damage) by (nonlinear_arith)
                            requires
                                0 <= damage,
                                0 <= hc <= pi,
                                pi < ps.len(),
                        ;
                    }
                    enemies.set(k, Enemy { id: e.id, pos: e.pos, health: e.health - damage });
                    proof {
                        assert forall|i: int| 0 <= i < orig.len() implies (#[trigger] enemies@[i]).health
                            == orig[i].health - damage * hit_count(
                            items,
                            orig[i].id,
                            ps.take(pi as int),
                            r,
                        ) - damage * (if ids@.take(j + 1).contains(orig[i].id) {
                            1int
                        } else {
                            0int
                        }) by {
                            if i == k {
                                assert(ids@.take(j + 1).contains(orig[i].id));
                            } else {
                                assert(enemies@[i] == prev[i]);
                                assert(orig[i].id != orig[k as int].id);
                            }
                        }
                    }
                },
            }
            j = j + 1;
        }
        proof {
            assert(ids@.take(ids@.len() as int) =~= ids@);
            assert forall|i: int| 0 <= i < orig.len() implies (#[trigger] enemies@[i]).health
                == orig[i].health - damage * hit_count(items, orig[i].id, ps.take(pi + 1), r) by {
                let hc0 = hit_count(items, orig[i].id, ps.take(pi as int), r);
                let ind: int = if key_hit(items, p, r, orig[i].id) {
                    1
                } else {
                    0
                };
                lemma_hit_count_take(items, orig[i].id, ps, r, pi as int);
                assert(hit_count(items, orig[i].id, ps.take(pi + 1), r) == hc0 + ind);
                if key_hit(items, p, r, orig[i].id) {
                    assert(ids@.contains(orig[i].id));
                }
                assert(enemies@[i].health == orig[i].health - damage * hc0 - damage * ind);
                assert(damage * (hc0 + ind) == damage * hc0 + damage * ind) by (nonlinear_arith);
            }
        }
        pi = pi + 1;
    }
    proof {
        assert(ps.take(ps.len() as int) =~= ps);
    }
}

} // verus!
