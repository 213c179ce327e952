//! Whether the simulations are being built, run, or held.

use vstd::prelude::*;

verus! {

#[derive(Clone, Copy, Debug, PartialEq, Eq, Structural)]
pub enum GameState {
    /// The simulations are being built. Nothing moves yet.
    Loading,
    /// Time passes.
    Running,
    /// Time stands still. The state can be read and commands are taken.
    Paused,
}

impl GameState {
    /// The state after loading has finished: a run begins when it has, and
    /// nothing else changes.
    pub open spec fn loaded(self) -> GameState {
        match self {
            GameState::Loading => GameState::Running,
            other => other,
        }
    }

    /// The state after the pause key: a run is held, a held run goes on, and
    /// loading is not disturbed.
    pub open spec fn toggled(self) -> GameState {
        match self {
            GameState::Loading => GameState::Loading,
            GameState::Running => GameState::Paused,
            GameState::Paused => GameState::Running,
        }
    }

    /// Whether time passes.
    pub open spec fn advances(self) -> bool {
        self == GameState::Running
    }

    /// The state after loading has finished.
    pub fn finish_loading(self) -> (next: GameState)
        ensures
            next == self.loaded(),
    {
        match self {
            GameState::Loading => GameState::Running,
            other => other,
        }
    }

    /// The state after the pause key.
    pub fn toggle_pause(self) -> (next: GameState)
        ensures
            next == self.toggled(),
    {
        match self {
            GameState::Loading => GameState::Loading,
            GameState::Running => GameState::Paused,
            GameState::Paused => GameState::Running,
        }
    }

    /// Whether time passes.
    pub fn is_running(self) -> (running: bool)
        ensures
            running == self.advances(),
    {
        match self {
            GameState::Running => true,
            _ => false,
        }
    }
}

} // verus!
