//! Points on the integer grid: validity bounds, exact squared-distance
//! comparison, and the homing movement step.
use vstd::prelude::*;

use crate::constants::POS_LIMIT;

verus! {

/// A position on the integer grid.
#[derive(Clone, Copy, PartialEq, Eq, Structural, Debug)]
pub struct Pos {
    pub x: i64,
    pub y: i64,
}

/// A position the simulation accepts: both coordinates within the world's
/// coordinate range, so squared distances between any two valid positions
/// fit in `i64`.
pub open spec fn valid_pos(p: Pos) -> bool {
    -POS_LIMIT <= p.x <= POS_LIMIT && -POS_LIMIT <= p.y <= POS_LIMIT
}

/// Squared Euclidean distance between two points given by coordinates.
pub open spec fn sq_dist(ax: int, ay: int, bx: int, by: int) -> int {
    (ax - bx) * (ax - bx) + (ay - by) * (ay - by)
}

/// Squared Euclidean distance between two positions.
pub open spec fn sq_dist_pos(a: Pos, b: Pos) -> int {
    sq_dist(a.x as int, a.y as int, b.x as int, b.y as int)
}

/// The square of a difference of values in `[-2 * POS_LIMIT, 2 * POS_LIMIT]`
/// stays within bounds that keep a two-term sum inside `i64`.
proof fn lemma_square_bound(d: int)
    requires
        -2 * POS_LIMIT <= d <= 2 * POS_LIMIT,
    ensures
        0 <= d * d <= 4_000_000_000_000_000_000,
{
    assert(0 <= d * d <= 4_000_000_000_000_000_000) by (nonlinear_arith)
        requires -2_000_000_000 <= d <= 2_000_000_000;
}

/// If a square is at most `r * r` for `r >= 0`, the base lies in `[-r, r]`.
pub proof fn lemma_square_le(d: int, r: int)
    requires
        0 <= r,
        d * d <= r * r,
    ensures
        -r <= d <= r,
{
    assert(-r <= d <= r) by (nonlinear_arith)
        requires 0 <= r, d * d <= r * r;
}

/// The square of a value bounded by a million stays comfortably inside
/// `i64`.
pub proof fn lemma_small_square(d: int)
    requires
        -1_000_000 <= d <= 1_000_000,
    ensures
        0 <= d * d <= 1_000_000_000_000,
{
    assert(0 <= d * d <= 1_000_000_000_000) by (nonlinear_arith)
        requires -1_000_000 <= d <= 1_000_000;
}

/// The squared distance between a position and its offset by `(dx, dy)` is
/// the squared length of the offset.
pub proof fn lemma_sq_dist_offset(a: Pos, p: Pos, dx: int, dy: int)
    requires
        p.x as int == a.x + dx,
        p.y as int == a.y + dy,
    ensures
        sq_dist_pos(a, p) == dx * dx + dy * dy,
{
    assert((a.x - (a.x + dx)) * (a.x - (a.x + dx)) == dx * dx) by (nonlinear_arith);
    assert((a.y - (a.y + dy)) * (a.y - (a.y + dy)) == dy * dy) by (nonlinear_arith);
}

/// Whether `b` lies within Euclidean distance `d` of `a`, boundary included.
pub fn within_distance(a: Pos, b: Pos, d: i64) -> (r: bool)
    requires
        valid_pos(a),
        valid_pos(b),
        0 <= d <= 2 * POS_LIMIT,
    ensures
        r == (sq_dist_pos(a, b) <= d * d),
{
    let dx: i64 = a.x - b.x;
    let dy: i64 = a.y - b.y;
    proof {
        lemma_square_bound(dx as int);
        lemma_square_bound(dy as int);
        lemma_square_bound(d as int);
    }
    dx * dx + dy * dy <= d * d
}

/// A coordinate pulled back into the world's coordinate range.
pub open spec fn clamp_coord(v: int) -> int {
    if v < -POS_LIMIT {
        -POS_LIMIT as int
    } else if v > POS_LIMIT {
        POS_LIMIT as int
    } else {
        v
    }
}

/// Clamp one coordinate into the world's coordinate range.
pub fn clamp_axis(v: i64) -> (r: i64)
    ensures
        r == clamp_coord(v as int),
        -POS_LIMIT <= r <= POS_LIMIT,
{
    if v < -POS_LIMIT {
        -POS_LIMIT
    } else if v > POS_LIMIT {
        POS_LIMIT
    } else {
        v
    }
}

/// One axis of the movement step: advance `from` toward `to` by at most
/// `speed`, stopping exactly at `to` when it is within reach.
pub open spec fn axis_step(from: int, to: int, speed: int) -> int {
    if to - from > speed {
        from + speed
    } else if to - from < -speed {
        from - speed
    } else {
        to
    }
}

/// Move a position toward an anchor at the given speed, axis by axis, never
/// overshooting. A position already at the anchor does not move, so the
/// undefined direction of a zero-length vector never enters position state.
pub fn step_toward(from: Pos, to: Pos, speed: i64) -> (r: Pos)
    requires
        valid_pos(from),
        valid_pos(to),
        0 <= speed,
    ensures
        r.x == axis_step(from.x as int, to.x as int, speed as int),
        r.y == axis_step(from.y as int, to.y as int, speed as int),
        valid_pos(r),
        from == to ==> r == from,
{
    let x = step_axis(from.x, to.x, speed);
    let y = step_axis(from.y, to.y, speed);
    Pos { x, y }
}

/// Advance one coordinate toward a goal coordinate by at most `speed`.
fn step_axis(from: i64, to: i64, speed: i64) -> (r: i64)
    requires
        -POS_LIMIT <= from <= POS_LIMIT,
        -POS_LIMIT <= to <= POS_LIMIT,
        0 <= speed,
    ensures
        r == axis_step(from as int, to as int, speed as int),
        -POS_LIMIT <= r <= POS_LIMIT,
{
    if to > from && to - from > speed {
        from + speed
    } else if to < from && from - to > speed {
        from - speed
    } else {
        to
    }
}

} // verus!
