//! Projectiles: the firing decision, per-tick flight, and expiry.
use vstd::prelude::*;

use crate::constants::{POS_LIMIT, PROJECTILE_VEL_LIMIT, PROJECTILES_PER_SHOT};
use crate::geom::{clamp_axis, clamp_coord, valid_pos, Pos};
use crate::rng::random_in_range;

verus! {

/// A projectile in flight: position, velocity per tick, and age in ticks
/// since it was fired.
#[derive(Clone, Copy, PartialEq, Eq, Structural, Debug)]
pub struct Projectile {
    pub pos: Pos,
    pub vel_x: i64,
    pub vel_y: i64,
    pub age: u64,
}

/// A projectile the simulation accepts: valid position, bounded velocity.
pub open spec fn valid_projectile(p: Projectile) -> bool {
    &&& valid_pos(p.pos)
    &&& -PROJECTILE_VEL_LIMIT <= p.vel_x <= PROJECTILE_VEL_LIMIT
    &&& -PROJECTILE_VEL_LIMIT <= p.vel_y <= PROJECTILE_VEL_LIMIT
}

/// Advance every projectile one tick along its own velocity, clamped to the
/// world's coordinate range, and age it by one tick.
pub fn update_projectile(projectiles: &mut Vec<Projectile>)
    requires
        forall|i: int| 0 <= i < old(projectiles)@.len() ==> valid_projectile(
            #[trigger] old(projectiles)@[i],
        ),
        forall|i: int| 0 <= i < old(projectiles)@.len() ==> (#[trigger] old(
            projectiles,
        )@[i]).age < u64::MAX,
    ensures
        final(projectiles)@.len() == old(projectiles)@.len(),
        forall|i: int| 0 <= i < old(projectiles)@.len() ==> {
            let o = old(projectiles)@[i];
            let n = #[trigger] final(projectiles)@[i];
            &&& n.pos.x == clamp_coord(o.pos.x + o.vel_x)
            &&& n.pos.y == clamp_coord(o.pos.y + o.vel_y)
            &&& n.vel_x == o.vel_x && n.vel_y == o.vel_y
            &&& n.age == o.age + 1
            &&& valid_projectile(n)
        },
{
    let mut i: usize = 0;
    while i < projectiles.len()
        invariant
            i <= projectiles@.len(),
            projectiles@.len() == old(projectiles)@.len(),
            forall|k: int| 0 <= k < old(projectiles)@.len() ==> valid_projectile(
                #[trigger] old(projectiles)@[k],
            ),
            forall|k: int| 0 <= k < old(projectiles)@.len() ==> (#[trigger] old(
                projectiles,
            )@[k]).age < u64::MAX,
            forall|k: int| i <= k < projectiles@.len() ==> #[trigger] projectiles@[k] == old(
                projectiles,
            )@[k],
            forall|k: int| 0 <= k < i ==> {
                let o = old(projectiles)@[k];
                let n = #[trigger] projectiles@[k];
                &&& n.pos.x == clamp_coord(o.pos.x + o.vel_x)
                &&& n.pos.y == clamp_coord(o.pos.y + o.vel_y)
                &&& n.vel_x == o.vel_x && n.vel_y == o.vel_y
                &&& n.age == o.age + 1
                &&& valid_projectile(n)
            },
        decreases projectiles@.len() - i,
    {
        let p = projectiles[i];
        let ghost prev = projectiles@;
        let x = clamp_axis(p.pos.x + p.vel_x);
        let y = clamp_axis(p.pos.y + p.vel_y);
        projectiles.set(
            i,
            Projectile { pos: Pos { x, y }, vel_x: p.vel_x, vel_y: p.vel_y, age: p.age + 1 },
        );
        proof {
            assert forall|k: int| 0 <= k < i implies #[trigger] projectiles@[k] == prev[k] by {}
        }
        i = i + 1;
    }
}

/// The projectiles of `s` that have not outlived `max_age` ticks, in order.
pub open spec fn fresh_set(s: Seq<Projectile>, max_age: u64) -> Seq<Projectile> {
    s.filter(|p: Projectile| p.age <= max_age)
}

/// Despawn every projectile older than `max_age` ticks, keeping the rest in
/// order.
pub fn despawn_old_projectiles(projectiles: &mut Vec<Projectile>, max_age: u64)
    ensures
        final(projectiles)@ == fresh_set(old(projectiles)@, max_age),
{
    let ghost orig = projectiles@;
    let mut kept: Vec<Projectile> = Vec::new();
    let mut i: usize = 0;
    proof {
        assert(orig.take(0) =~= Seq::<Projectile>::empty());
        assert(kept@ =~= orig.take(0).filter(|p: Projectile| p.age <= max_age)) by {
            reveal(Seq::filter);
        }
    }
    while i < projectiles.len()
        invariant
            i <= projectiles@.len(),
            projectiles@ == orig,
            kept@ == orig.take(i as int).filter(|p: Projectile| p.age <= max_age),
        decreases projectiles@.len() - i,
    {
        broadcast use vstd::prelude::Seq::lemma_filter_push, vstd::prelude::Seq::lemma_take_succ_push;

        let p = projectiles[i];
        if p.age <= max_age {
            kept.push(p);
        }
        i = i + 1;
    }
    proof {
        assert(orig.take(orig.len() as int) =~= orig);
    }
    *projectiles = kept;
}

/// The firing decision: when the trigger is held and the refire timer has
/// elapsed, fire a burst of fresh projectiles from the weapon's position,
/// each with the aim velocity jittered independently per axis by at most
/// `jitter`; otherwise fire nothing.
pub fn handle_weapon_input(
    pressed: bool,
    timer_elapsed: bool,
    weapon_pos: Pos,
    aim_x: i64,
    aim_y: i64,
    jitter: i64,
) -> (shots: Vec<Projectile>)
    requires
        valid_pos(weapon_pos),
        0 <= jitter,
        -PROJECTILE_VEL_LIMIT <= aim_x - jitter && aim_x + jitter <= PROJECTILE_VEL_LIMIT,
        -PROJECTILE_VEL_LIMIT <= aim_y - jitter && aim_y + jitter <= PROJECTILE_VEL_LIMIT,
    ensures
        pressed && timer_elapsed ==> shots@.len() == PROJECTILES_PER_SHOT,
        !(pressed && timer_elapsed) ==> shots@.len() == 0,
        forall|i: int| 0 <= i < shots@.len() ==> {
            let s = #[trigger] shots@[i];
            &&& s.pos == weapon_pos
            &&& s.age == 0
            &&& aim_x - jitter <= s.vel_x <= aim_x + jitter
            &&& aim_y - jitter <= s.vel_y <= aim_y + jitter
            &&& valid_projectile(s)
        },
{
    let mut shots: Vec<Projectile> = Vec::new();
    if !(pressed && timer_elapsed) {
        return shots;
    }
    let mut fired: usize = 0;
    while fired < PROJECTILES_PER_SHOT
        invariant
            valid_pos(weapon_pos),
            0 <= jitter,
            -PROJECTILE_VEL_LIMIT <= aim_x - jitter && aim_x + jitter <= PROJECTILE_VEL_LIMIT,
            -PROJECTILE_VEL_LIMIT <= aim_y - jitter && aim_y + jitter <= PROJECTILE_VEL_LIMIT,
            fired <= PROJECTILES_PER_SHOT,
            shots@.len() == fired,
            forall|i: int| 0 <= i < shots@.len() ==> {
                let s = #[trigger] shots@[i];
                &&& s.pos == weapon_pos
                &&& s.age == 0
                &&& aim_x - jitter <= s.vel_x <= aim_x + jitter
                &&& aim_y - jitter <= s.vel_y <= aim_y + jitter
                &&& valid_projectile(s)
            },
        decreases PROJECTILES_PER_SHOT - fired,
    {
        let jx = random_in_range(-jitter, jitter + 1);
        let jy = random_in_range(-jitter, jitter + 1);
        shots.push(
            Projectile { pos: weapon_pos, vel_x: aim_x + jx, vel_y: aim_y + jy, age: 0 },
        );
        fired = fired + 1;
    }
    shots
}

} // verus!
