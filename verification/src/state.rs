//! The authoritative state of a game: the board and the units on it.

use vstd::prelude::*;
use crate::gameboard::Gameboard;
use crate::gameboard::Grid;
use crate::position::Position;
use crate::team::PlayerTeam;
use crate::units::Unit;

verus! {

/// The state of a game as a mathematical value.
pub struct World {
    pub board: Grid,
    pub units: Seq<Unit>,
}

/// The state that the server owns and that only the resolver changes.
/// A unit is known by its index in `units`, which never changes.
#[derive(Clone, Debug)]
pub struct GameState {
    pub board: Gameboard,
    pub units: Vec<Unit>,
}

impl View for GameState {
    type V = World;

    open spec fn view(&self) -> World {
        World { board: self.board@, units: self.units@ }
    }
}

/// The first unit, from index `k` on, that stands at `pos` and belongs to `team`.
pub open spec fn spec_acting_unit(units: Seq<Unit>, pos: Position, team: PlayerTeam, k: int) -> Option<
    int,
>
    decreases units.len() - k,
{
    if k < 0 || k >= units.len() {
        None
    } else if units[k].pos == pos && units[k].owner == team {
        Some(k)
    } else {
        spec_acting_unit(units, pos, team, k + 1)
    }
}

/// The first unit, from index `k` on, that stands at `pos`.
pub open spec fn spec_first_at(units: Seq<Unit>, pos: Position, k: int) -> Option<int>
    decreases units.len() - k,
{
    if k < 0 || k >= units.len() {
        None
    } else if units[k].pos == pos {
        Some(k)
    } else {
        spec_first_at(units, pos, k + 1)
    }
}

/// How many of the first `n` units stand at `pos`.
pub open spec fn spec_units_at(units: Seq<Unit>, pos: Position, n: int) -> int
    decreases n,
{
    if n <= 0 {
        0
    } else {
        spec_units_at(units, pos, n - 1) + if units[n - 1].pos == pos {
            1int
        } else {
            0int
        }
    }
}

/// The unit that stands alone at `pos`; none when the tile is empty or crowded.
pub open spec fn spec_sole_unit_at(units: Seq<Unit>, pos: Position) -> Option<int> {
    if spec_units_at(units, pos, units.len() as int) == 1 {
        spec_first_at(units, pos, 0)
    } else {
        None
    }
}

/// A unit found by `spec_acting_unit` is a unit of the team at that place.
pub proof fn lemma_acting_unit(units: Seq<Unit>, pos: Position, team: PlayerTeam, k: int)
    requires
        0 <= k,
    ensures
        spec_acting_unit(units, pos, team, k) matches Some(u) ==> k <= u < units.len()
            && units[u].pos == pos && units[u].owner == team,
        spec_acting_unit(units, pos, team, k).is_none() ==> forall|j: int|
            k <= j < units.len() ==> !(#[trigger] units[j].pos == pos && units[j].owner == team),
    decreases units.len() - k,
{
    if k < units.len() && !(units[k].pos == pos && units[k].owner == team) {
        lemma_acting_unit(units, pos, team, k + 1);
    }
}

/// A unit found by `spec_first_at` stands at that place.
pub proof fn lemma_first_at(units: Seq<Unit>, pos: Position, k: int)
    requires
        0 <= k,
    ensures
        spec_first_at(units, pos, k) matches Some(u) ==> k <= u < units.len() && units[u].pos == pos,
    decreases units.len() - k,
{
    if k < units.len() && units[k].pos != pos {
        lemma_first_at(units, pos, k + 1);
    }
}

impl GameState {
    /// The board is well formed.
    pub open spec fn wf(self) -> bool {
        self.board.wf()
    }

    /// A state from a board and the units on it.
    pub fn new(board: Gameboard, units: Vec<Unit>) -> (state: GameState)
        ensures
            state.board == board,
            state.units == units,
    {
        GameState { board, units }
    }

    /// The first unit of `team` that stands at `pos`.
    pub fn acting_unit(&self, pos: Position, team: PlayerTeam) -> (found: Option<usize>)
        ensures
            match found {
                Some(u) => spec_acting_unit(self.units@, pos, team, 0) == Some(u as int) && u
                    < self.units@.len(),
                None => spec_acting_unit(self.units@, pos, team, 0).is_none(),
            },
    {
        let mut k: usize = 0;
        while k < self.units.len()
            invariant
                k <= self.units@.len(),
                spec_acting_unit(self.units@, pos, team, k as int) == spec_acting_unit(
                    self.units@,
                    pos,
                    team,
                    0,
                ),
            decreases self.units@.len() - k,
        {
            if self.units[k].pos == pos && self.units[k].owner == team {
                return Some(k);
            }
            k = k + 1;
        }
        None
    }

    /// How many units stand at `pos`.
    pub fn units_at(&self, pos: Position) -> (n: usize)
        ensures
            n == spec_units_at(self.units@, pos, self.units@.len() as int),
    {
        let mut n: usize = 0;
        let mut k: usize = 0;
        while k < self.units.len()
            invariant
                k <= self.units@.len(),
                n <= k,
                n == spec_units_at(self.units@, pos, k as int),
            decreases self.units@.len() - k,
        {
            if self.units[k].pos == pos {
                n = n + 1;
            }
            k = k + 1;
        }
        n
    }

    /// The unit that stands alone at `pos`.
    pub fn sole_unit_at(&self, pos: Position) -> (found: Option<usize>)
        ensures
            match found {
                Some(u) => spec_sole_unit_at(self.units@, pos) == Some(u as int) && u
                    < self.units@.len() && self.units@[u as int].pos == pos,
                None => spec_sole_unit_at(self.units@, pos).is_none(),
            },
    {
        if self.units_at(pos) != 1 {
            return None;
        }
        let mut k: usize = 0;
        while k < self.units.len()
            invariant
                k <= self.units@.len(),
                spec_units_at(self.units@, pos, self.units@.len() as int) == 1,
                spec_first_at(self.units@, pos, k as int) == spec_first_at(self.units@, pos, 0),
            decreases self.units@.len() - k,
        {
            if self.units[k].pos == pos {
                return Some(k);
            }
            k = k + 1;
        }
        None
    }
}

} // verus!
