//! Application and turn phases.
use vstd::prelude::*;

verus! {

/// Which screen of the application is active.
#[derive(Clone, Copy, Debug, PartialEq, Eq, Structural)]
pub enum ApplicationState {
    MainMenu,
    Gameplay,
    EndMenu,
}

/// Holder of the application's current screen.
#[derive(Clone, Copy, Debug, PartialEq, Eq, Structural)]
pub struct GlobalApplicationState {
    pub application_state: ApplicationState,
}

impl Default for GlobalApplicationState {
    /// A session opens straight into gameplay.
    fn default() -> (r: Self)
        ensures
            r.application_state == ApplicationState::Gameplay,
    {
        GlobalApplicationState { application_state: ApplicationState::Gameplay }
    }
}

/// The phases of one round, in the order the turn machine visits them.
#[derive(Clone, Copy, Debug, PartialEq, Eq, Structural)]
pub enum TurnState {
    /// A new colour mask is drawn.
    ColorPick,
    /// Units take the colours of the new mask.
    PlayerChange,
    /// An enemy may appear.
    EnemySpawn,
    /// The player moves.
    MovePlayer,
    /// The player attacks.
    AttackPlayer,
    /// The enemies move.
    MoveEnemy,
    /// The enemies attack.
    AttackEnemy,
}

/// The phase that follows `t` in the round.
pub open spec fn successor(t: TurnState) -> TurnState {
    match t {
        TurnState::ColorPick => TurnState::PlayerChange,
        TurnState::PlayerChange => TurnState::EnemySpawn,
        TurnState::EnemySpawn => TurnState::MovePlayer,
        TurnState::MovePlayer => TurnState::AttackPlayer,
        TurnState::AttackPlayer => TurnState::MoveEnemy,
        TurnState::MoveEnemy => TurnState::AttackEnemy,
        TurnState::AttackEnemy => TurnState::ColorPick,
    }
}

/// The on-screen name of a phase.
pub open spec fn turn_label(t: TurnState) -> Seq<char> {
    match t {
        TurnState::ColorPick => "Color Pick"@,
        TurnState::PlayerChange => "Player Change"@,
        TurnState::EnemySpawn => "Enemy Spawn"@,
        TurnState::MovePlayer => "Move Player"@,
        TurnState::AttackPlayer => "Player Attacks"@,
        TurnState::MoveEnemy => "Move Enemy"@,
        TurnState::AttackEnemy => "Enemy Attacks"@,
    }
}

impl TurnState {
    /// The on-screen name of this phase.
    pub fn label(&self) -> (r: &'static str)
        ensures
            r@ == turn_label(*self),
    {
        match self {
            TurnState::ColorPick => "Color Pick",
            TurnState::PlayerChange => "Player Change",
            TurnState::EnemySpawn => "Enemy Spawn",
            TurnState::MovePlayer => "Move Player",
            TurnState::AttackPlayer => "Player Attacks",
            TurnState::MoveEnemy => "Move Enemy",
            TurnState::AttackEnemy => "Enemy Attacks",
        }
    }
}

/// Holder of the current phase; only the turn machine changes it.
#[derive(Clone, Copy, Debug, PartialEq, Eq, Structural)]
pub struct GlobalTurnState {
    pub turn_state: TurnState,
}

impl Default for GlobalTurnState {
    /// Every session starts by picking a colour.
    fn default() -> (r: Self)
        ensures
            r.turn_state == TurnState::ColorPick,
    {
        GlobalTurnState { turn_state: TurnState::ColorPick }
    }
}

impl GlobalTurnState {
    /// Replaces the current phase.
    pub fn modify_state(&mut self, new_state: TurnState)
        ensures
            final(self).turn_state == new_state,
    {
        self.turn_state = new_state;
    }
}

} // verus!
