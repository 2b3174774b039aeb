//! The game's state machine: loading, menu, bootstrapping a fresh round,
//! playing, and back to the menu on death.
use vstd::prelude::*;

verus! {

/// The phase the game is in.
#[derive(Clone, Copy, PartialEq, Eq, Structural, Debug)]
pub enum GameState {
    Loading,
    Menu,
    Bootstraping,
    Playing,
}

/// What just happened, as far as the state machine cares.
#[derive(Clone, Copy, PartialEq, Eq, Structural, Debug)]
pub enum GameEvent {
    AssetsLoaded,
    PlayPressed,
    WorldReady,
    PlayerDied,
}

/// The transition table: assets loaded take the game to the menu, the play
/// button starts a round, a bootstrapped world starts play, the player's
/// death returns to the menu, and any other event leaves the state alone.
pub open spec fn spec_next_state(s: GameState, ev: GameEvent) -> GameState {
    match (s, ev) {
        (GameState::Loading, GameEvent::AssetsLoaded) => GameState::Menu,
        (GameState::Menu, GameEvent::PlayPressed) => GameState::Bootstraping,
        (GameState::Bootstraping, GameEvent::WorldReady) => GameState::Playing,
        (GameState::Playing, GameEvent::PlayerDied) => GameState::Menu,
        _ => s,
    }
}

/// Advance the state machine by one event.
pub fn next_state(s: GameState, ev: GameEvent) -> (r: GameState)
    ensures
        r == spec_next_state(s, ev),
{
    match (s, ev) {
        (GameState::Loading, GameEvent::AssetsLoaded) => GameState::Menu,
        (GameState::Menu, GameEvent::PlayPressed) => GameState::Bootstraping,
        (GameState::Bootstraping, GameEvent::WorldReady) => GameState::Playing,
        (GameState::Playing, GameEvent::PlayerDied) => GameState::Menu,
        _ => s,
    }
}

} // verus!
