use vstd::prelude::*;

use crate::countdown::Countdown;

verus! {

/// Length of a round, in microseconds.
pub const ROUND_LENGTH: u64 = 60_000_000;

/// The score and the round's clock.
pub struct GameData {
    score: usize,
    time: Countdown,
}

/// One point scored.
#[derive(Clone, Copy, Debug, PartialEq, Eq, Structural)]
pub struct IncreaseScore;

/// Where the application is.
#[derive(Clone, Copy, Debug, PartialEq, Eq, Structural)]
pub enum AppState {
    MainMenu,
    PauseMenu,
    LevelSelectMenu,
    LoadLevel,
    Editor,
    Game,
    LevelCompleted,
    GameOver,
}

/// Requests made from the menu's keyboard and gamepad bindings.
#[derive(Clone, Copy, Debug, PartialEq, Eq, Structural)]
pub enum ActionForKbgp {
    Menu,
    RestartLevel,
}

/// Menu entries that can take the focus.
#[derive(Clone, Copy, Debug, PartialEq, Eq, Structural)]
pub enum FocusLabel {
    Start,
    Exit,
    NextLevel,
    BackToMainMenu,
}

impl GameData {
    pub closed spec fn points(self) -> nat {
        self.score as nat
    }

    pub closed spec fn clock(self) -> Countdown {
        self.time
    }

    pub open spec fn wf(self) -> bool {
        self.clock().wf()
    }

    /// No points yet, a full round on the clock.
    pub fn init() -> (r: GameData)
        ensures
            r.points() == 0,
            r.clock() == Countdown::new_spec(ROUND_LENGTH),
            r.wf(),
    {
        GameData { score: 0, time: Countdown::new(ROUND_LENGTH) }
    }

    /// Whether the round's time is up.
    pub fn is_finished(&self) -> (r: bool)
        ensures
            r == self.clock().done,
    {
        self.time.finished()
    }

    pub fn score(&self) -> (r: usize)
        ensures
            r == self.points(),
    {
        self.score
    }

    /// Microseconds left in the round.
    pub fn remaining(&self) -> (r: u64)
        requires
            self.wf(),
        ensures
            r == self.clock().duration - self.clock().elapsed,
    {
        self.time.duration - self.time.elapsed
    }

    /// Length of the round, in microseconds.
    pub fn duration(&self) -> (r: u64)
        ensures
            r == self.clock().duration,
    {
        self.time.duration
    }

    /// Counts one point (the count stops at the largest `usize`).
    pub fn record(&mut self, _event: IncreaseScore)
        ensures
            final(self).points() == if old(self).points() < usize::MAX {
                old(self).points() + 1
            } else {
                old(self).points()
            },
            final(self).clock() == old(self).clock(),
    {
        if self.score < usize::MAX {
            self.score = self.score + 1;
        }
    }

    /// Runs the clock for `dt` microseconds; true when the round is over, which ends
    /// the game.
    pub fn advance(&mut self, dt: u64) -> (r: bool)
        requires
            old(self).wf(),
        ensures
            final(self).clock() == old(self).clock().ticked(dt),
            final(self).points() == old(self).points(),
            r == final(self).clock().done,
            final(self).wf(),
    {
        self.time.tick(dt);
        self.time.finished()
    }
}

impl AppState {
    pub open spec fn menu(self) -> bool {
        match self {
            AppState::MainMenu | AppState::PauseMenu | AppState::LevelSelectMenu
            | AppState::GameOver => true,
            _ => false,
        }
    }

    /// Whether this state shows a menu.
    pub fn is_menu(&self) -> (r: bool)
        ensures
            r == self.menu(),
    {
        match self {
            AppState::MainMenu => true,
            AppState::PauseMenu => true,
            AppState::LevelSelectMenu => true,
            AppState::LoadLevel => false,
            AppState::Editor => false,
            AppState::Game => false,
            AppState::LevelCompleted => false,
            AppState::GameOver => true,
        }
    }

    /// Physics runs only during play.
    pub fn runs_physics(&self) -> (r: bool)
        ensures
            r == (*self == AppState::Game),
    {
        match self {
            AppState::Game => true,
            _ => false,
        }
    }
}

impl ActionForKbgp {
    /// The state a menu request leads to: the pause menu, or reloading the level.
    pub fn next_state(&self) -> (r: AppState)
        ensures
            *self == ActionForKbgp::Menu ==> r == AppState::PauseMenu,
            *self == ActionForKbgp::RestartLevel ==> r == AppState::LoadLevel,
    {
        match self {
            ActionForKbgp::Menu => AppState::PauseMenu,
            ActionForKbgp::RestartLevel => AppState::LoadLevel,
        }
    }
}

} // verus!
