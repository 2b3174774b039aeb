//! Sprite-animation decisions: which atlas frame comes next and which way a
//! sprite faces. The timers that pace the frames belong to the shell around
//! the library; it hands in whether a timer just finished.
use vstd::prelude::*;

use crate::constants::SPRITE_SHEET_WIDTH;
use crate::player::PlayerState;

verus! {

/// The first atlas frame of the player's animation row for a state: the
/// idle row starts the sheet, the walking row starts at its fifth frame.
pub open spec fn spec_base_frame(state: PlayerState) -> int {
    match state {
        PlayerState::Idle => 0,
        PlayerState::Moving => 4,
    }
}

/// Advance the player's sprite one animation frame: cycle through half an
/// atlas row, offset by the state's base frame. Without a finished timer
/// the frame stays as it is.
pub fn animate_player(timer_finished: bool, state: PlayerState, frame: usize) -> (r: usize)
    requires
        frame < usize::MAX,
    ensures
        timer_finished ==> r == spec_base_frame(state) + ((frame + 1) as int) % (
        SPRITE_SHEET_WIDTH as int / 2),
        !timer_finished ==> r == frame,
{
    if timer_finished {
        let base: usize = match state {
            PlayerState::Idle => 0,
            PlayerState::Moving => 4,
        };
        base + (frame + 1) % (SPRITE_SHEET_WIDTH / 2)
    } else {
        frame
    }
}

/// Which way a sprite faces: flipped when the cursor is on its left.
pub fn sprite_faces_left(cursor_x: i64, sprite_x: i64) -> (r: bool)
    ensures
        r == (cursor_x < sprite_x),
{
    cursor_x < sprite_x
}

} // verus!
