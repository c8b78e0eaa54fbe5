//! What a team may ask of its units.

use vstd::prelude::*;
use crate::position::Position;
use crate::team::PlayerTeam;
use crate::units::TurnExecuteStage;

verus! {

/// The closed set of action kinds.
#[derive(Clone, Copy, Debug, PartialEq, Eq, Structural, Hash)]
pub enum UnitActions {
    Move,
    Attack,
    Heal,
    Build,
}

/// One requested action: what to do, in which phase, from where and at what.
#[derive(Clone, Copy, Debug, PartialEq, Eq, Structural, Hash)]
pub struct UnitAction {
    pub action_type: UnitActions,
    pub turn_stage: TurnExecuteStage,
    pub curr_pos: Position,
    pub action_pos: Position,
}

/// An action together with the team that submitted it.
#[derive(Clone, Copy, Debug, PartialEq, Eq, Structural, Hash)]
pub struct QueuedAction {
    pub team: PlayerTeam,
    pub action: UnitAction,
}

/// How the resolver disposed of one action.
#[derive(Clone, Copy, Debug, PartialEq, Eq, Structural, Hash)]
pub enum ActionOutcome {
    /// The action took effect.
    Applied,
    /// The action was dropped: contested, or invalid on the board as it stood.
    Bounced,
    /// The action's kind has no handler yet.
    Unsupported,
}

} // verus!
