//! Units and their statistics.
//!
//! Fractional statistics are held in thousandths, as whole numbers.

use vstd::prelude::*;
use crate::position::Position;
use crate::team::PlayerTeam;
use crate::team::TeamColour;

verus! {

/// The catalogue of unit kinds.
#[derive(Clone, Copy, Debug, PartialEq, Eq, Structural, Hash)]
pub enum UnitID {
    ScienceGenericTest,
    MagicGenericTest,
}

impl UnitID {
    /// Sprite of the unit kind in the character atlas.
    pub open spec fn spec_texture_index(self) -> int {
        match self {
            UnitID::ScienceGenericTest => 0,
            UnitID::MagicGenericTest => 1,
        }
    }

    /// Unit kind shown by a sprite of the character atlas; unknown sprites
    /// show the first kind.
    pub open spec fn spec_from_texture_index(index: int) -> UnitID {
        if index == 1 {
            UnitID::MagicGenericTest
        } else {
            UnitID::ScienceGenericTest
        }
    }

    /// Sprite of the unit kind in the character atlas.
    pub fn texture_index(&self) -> (index: usize)
        ensures
            index == self.spec_texture_index(),
    {
        match self {
            UnitID::ScienceGenericTest => 0,
            UnitID::MagicGenericTest => 1,
        }
    }

    /// Unit kind shown by a sprite of the character atlas.
    pub fn from_texture_index(index: usize) -> (id: UnitID)
        ensures
            id == Self::spec_from_texture_index(index as int),
    {
        if index == 1 {
            UnitID::MagicGenericTest
        } else {
            UnitID::ScienceGenericTest
        }
    }
}

impl Default for UnitID {
    fn default() -> (id: UnitID)
        ensures
            id == UnitID::ScienceGenericTest,
    {
        UnitID::ScienceGenericTest
    }
}

/// Every unit kind is found again from its sprite.
pub proof fn lemma_texture_index_round_trip(id: UnitID)
    ensures
        UnitID::spec_from_texture_index(id.spec_texture_index()) == id,
{
}

/// Hit points, in thousandths.
#[derive(Clone, Copy, Debug, PartialEq, Eq, Structural, Hash)]
pub struct Health(pub u32);

/// Offensive statistics; `base` and the multipliers in thousandths.
#[derive(Clone, Copy, Debug, PartialEq, Eq, Structural, Hash)]
pub struct Attack {
    pub base: u32,
    pub range: i32,
    pub splash: bool,
    pub splash_multiplier: u32,
    pub magic_multiplier: u32,
    pub science_multiplier: u32,
}

/// Defensive statistics, in thousandths.
#[derive(Clone, Copy, Debug, PartialEq, Eq, Structural, Hash)]
pub struct Defense {
    pub base: u32,
    pub magic_multiplier: u32,
    pub science_multiplier: u32,
}

/// Movement budget of a unit, in tiles crossed at speed 1.
#[derive(Clone, Copy, Debug, PartialEq, Eq, Structural, Hash)]
pub struct Movement(pub i32);

/// The three phases of a turn, in the order in which they run.
#[derive(Clone, Copy, Debug, PartialEq, Eq, Structural, Hash)]
pub enum TurnExecuteStages {
    PreTurn,
    MidTurn,
    AfterTurn,
}

impl TurnExecuteStages {
    /// Place of the phase in the turn: 0, 1 or 2.
    pub open spec fn spec_order(self) -> int {
        match self {
            TurnExecuteStages::PreTurn => 0,
            TurnExecuteStages::MidTurn => 1,
            TurnExecuteStages::AfterTurn => 2,
        }
    }
}

impl Default for TurnExecuteStages {
    fn default() -> (stage: TurnExecuteStages)
        ensures
            stage == TurnExecuteStages::MidTurn,
    {
        TurnExecuteStages::MidTurn
    }
}

/// The phase in which a unit acts.
#[derive(Clone, Copy, Debug, PartialEq, Eq, Structural, Hash)]
pub struct TurnExecuteStage(pub TurnExecuteStages);

/// The schools a unit or a resource site can belong to.
#[derive(Clone, Copy, Debug, PartialEq, Eq, Structural, Hash)]
pub enum Archetypes {
    Magic,
    Science,
    /// Neither school.
    Unaligned,
}

impl Default for Archetypes {
    fn default() -> (archetype: Archetypes)
        ensures
            archetype == Archetypes::Unaligned,
    {
        Archetypes::Unaligned
    }
}

/// The school of a unit or of a resource site.
#[derive(Clone, Copy, Debug, PartialEq, Eq, Structural, Hash)]
pub struct Archetype(pub Archetypes);

/// A unit on the board.
#[derive(Clone, Copy, Debug, PartialEq, Eq, Structural, Hash)]
pub struct Unit {
    pub id: UnitID,
    pub pos: Position,
    pub health: Health,
    pub attack: Attack,
    pub defense: Defense,
    pub movement: Movement,
    pub turn_execute_stage: TurnExecuteStage,
    pub archetype: Archetype,
    pub owner: PlayerTeam,
}

impl Unit {
    /// The unit that a board is seeded with beside a nest.
    pub open spec fn spec_starting(pos: Position, owner: PlayerTeam) -> Unit {
        Unit {
            id: UnitID::ScienceGenericTest,
            pos,
            health: Health(3000),
            attack: Attack {
                base: 1000,
                range: 1,
                splash: false,
                splash_multiplier: 1000,
                magic_multiplier: 1000,
                science_multiplier: 1000,
            },
            defense: Defense { base: 1000, magic_multiplier: 1000, science_multiplier: 1000 },
            movement: Movement(1),
            turn_execute_stage: TurnExecuteStage(TurnExecuteStages::MidTurn),
            archetype: Archetype(Archetypes::Unaligned),
            owner,
        }
    }

    /// The unit that a board is seeded with beside a nest.
    pub fn starting(pos: Position, owner: PlayerTeam) -> (unit: Unit)
        ensures
            unit == Self::spec_starting(pos, owner),
    {
        Unit {
            id: UnitID::ScienceGenericTest,
            pos,
            health: Health(3000),
            attack: Attack {
                base: 1000,
                range: 1,
                splash: false,
                splash_multiplier: 1000,
                magic_multiplier: 1000,
                science_multiplier: 1000,
            },
            defense: Defense { base: 1000, magic_multiplier: 1000, science_multiplier: 1000 },
            movement: Movement(1),
            turn_execute_stage: TurnExecuteStage(TurnExecuteStages::MidTurn),
            archetype: Archetype(Archetypes::Unaligned),
            owner,
        }
    }
}

impl Default for Unit {
    fn default() -> (unit: Unit)
        ensures
            unit == (Unit {
                id: UnitID::ScienceGenericTest,
                pos: Position { x: 0, y: 0 },
                health: Health(0),
                attack: Attack {
                    base: 0,
                    range: 0,
                    splash: false,
                    splash_multiplier: 0,
                    magic_multiplier: 0,
                    science_multiplier: 0,
                },
                defense: Defense { base: 0, magic_multiplier: 0, science_multiplier: 0 },
                movement: Movement(0),
                turn_execute_stage: TurnExecuteStage(TurnExecuteStages::MidTurn),
                archetype: Archetype(Archetypes::Unaligned),
                owner: PlayerTeam(TeamColour::Blue),
            }),
    {
        Unit {
            id: UnitID::ScienceGenericTest,
            pos: Position { x: 0, y: 0 },
            health: Health(0),
            attack: Attack {
                base: 0,
                range: 0,
                splash: false,
                splash_multiplier: 0,
                magic_multiplier: 0,
                science_multiplier: 0,
            },
            defense: Defense { base: 0, magic_multiplier: 0, science_multiplier: 0 },
            movement: Movement(0),
            turn_execute_stage: TurnExecuteStage(TurnExecuteStages::MidTurn),
            archetype: Archetype(Archetypes::Unaligned),
            owner: PlayerTeam(TeamColour::Blue),
        }
    }
}

} // verus!
