//! The player: keyboard-driven movement, health, and death.
use vstd::prelude::*;

use crate::constants::{DAMAGE_LIMIT, POS_LIMIT};
use crate::geom::{clamp_axis, clamp_coord, valid_pos, Pos};

verus! {

/// The player's remaining health.
#[derive(Clone, Copy, PartialEq, Eq, Structural, Debug)]
pub struct Health(pub i64);

/// Whether the player is standing still or walking, for the presentation
/// layer to pick an animation from.
#[derive(Clone, Copy, PartialEq, Eq, Structural, Debug)]
pub enum PlayerState {
    Idle,
    Moving,
}

/// The movement sign of one axis from its two keys: `1` toward the positive
/// key, `-1` toward the negative key, `0` when neither or both are held.
pub open spec fn input_delta(neg_key: bool, pos_key: bool) -> int {
    (if pos_key {
        1int
    } else {
        0int
    }) - (if neg_key {
        1int
    } else {
        0int
    })
}

/// One tick of player movement: advance by `speed` along each axis whose
/// keys say so, clamped to the world's coordinate range. The player is
/// moving exactly when the held keys do not cancel out; keys that cancel
/// leave the player idle in place, so the undefined direction of a
/// zero-length input never reaches position state.
pub fn handle_player_input(pos: Pos, up: bool, down: bool, left: bool, right: bool, speed: i64) -> (r: (
    Pos,
    PlayerState,
))
    requires
        valid_pos(pos),
        0 <= speed <= POS_LIMIT,
    ensures
        r.0.x == clamp_coord(pos.x + input_delta(left, right) * speed),
        r.0.y == clamp_coord(pos.y + input_delta(down, up) * speed),
        r.1 == (if input_delta(left, right) != 0 || input_delta(down, up) != 0 {
            PlayerState::Moving
        } else {
            PlayerState::Idle
        }),
        valid_pos(r.0),
{
    let sx: i64 = if right && !left {
        speed
    } else if left && !right {
        -speed
    } else {
        0
    };
    let sy: i64 = if up && !down {
        speed
    } else if down && !up {
        -speed
    } else {
        0
    };
    proof {
        assert(sx == input_delta(left, right) * speed && sy == input_delta(down, up) * speed)
            by (nonlinear_arith)
            requires
                sx == input_delta(left, right) * speed || (input_delta(left, right) == 1 && sx
                    == speed) || (input_delta(left, right) == -1 && sx == -speed) || (input_delta(
                    left,
                    right,
                ) == 0 && sx == 0),
                sy == input_delta(down, up) * speed || (input_delta(down, up) == 1 && sy == speed)
                    || (input_delta(down, up) == -1 && sy == -speed) || (input_delta(down, up) == 0
                    && sy == 0),
        ;
    }
    let x = clamp_axis(pos.x + sx);
    let y = clamp_axis(pos.y + sy);
    let state = if (right != left) || (up != down) {
        PlayerState::Moving
    } else {
        PlayerState::Idle
    };
    (Pos { x, y }, state)
}

/// One contact between the player and a target during a tick.
#[derive(Clone, Copy, PartialEq, Eq, Structural, Debug)]
pub struct PlayerEnemyCollisionEvent;

/// Apply the damage of the tick's player-enemy collision events: one fixed
/// amount per event, cumulative and without clamping.
pub fn handle_player_enemy_collision_events(
    health: Health,
    events: &Vec<PlayerEnemyCollisionEvent>,
    damage: i64,
) -> (r: Health)
    requires
        0 <= damage <= DAMAGE_LIMIT,
        events@.len() <= 1_000_000_000,
        -1_000_000_000 <= health.0 <= 1_000_000_000,
    ensures
        r.0 == health.0 - events@.len() * damage,
{
    let hits = events.len();
    proof {
        assert(0 <= (hits as int) * damage <= 1_000_000_000_000_000_000) by (nonlinear_arith)
            requires 0 <= hits <= 1_000_000_000, 0 <= damage <= 1_000_000_000;
    }
    Health(health.0 - (hits as i64) * damage)
}

/// Whether the player has died: health at or below zero.
pub fn handle_player_death(health: Health) -> (dead: bool)
    ensures
        dead == (health.0 <= 0),
{
    health.0 <= 0
}

} // verus!
