//! Choosing a unit and where it is to go: what a click on the map means.

use vstd::prelude::*;
use crate::actions::UnitAction;
use crate::actions::UnitActions;
use crate::gameboard::Gameboard;
use crate::gameboard::Grid;
use crate::position::Position;
use crate::state::spec_first_at;
use crate::state::spec_units_at;
use crate::traversal::reaches;
use crate::traversal::spec_reaches;
use crate::traversal::spec_traversible;
use crate::units::Unit;

verus! {

/// The marks that are drawn over the map.
#[derive(Clone, Copy, Debug, PartialEq, Eq, Structural, Hash)]
pub enum Icons {
    Circle,
    Cross,
    Selector,
}

impl Icons {
    /// Sprite of the mark in the icon atlas.
    pub open spec fn spec_texture_index(self) -> int {
        match self {
            Icons::Selector => 0,
            Icons::Circle => 1,
            Icons::Cross => 2,
        }
    }

    /// Mark shown by a sprite of the icon atlas; unknown sprites show the selector.
    pub open spec fn spec_from_texture_index(index: int) -> Icons {
        if index == 1 {
            Icons::Circle
        } else if index == 2 {
            Icons::Cross
        } else {
            Icons::Selector
        }
    }

    /// Sprite of the mark in the icon atlas.
    pub fn texture_index(&self) -> (index: usize)
        ensures
            index == self.spec_texture_index(),
    {
        match self {
            Icons::Selector => 0,
            Icons::Circle => 1,
            Icons::Cross => 2,
        }
    }

    /// Mark shown by a sprite of the icon atlas.
    pub fn from_texture_index(index: usize) -> (icon: Icons)
        ensures
            icon == Self::spec_from_texture_index(index as int),
            Self::spec_from_texture_index(icon.spec_texture_index()) == icon,
    {
        if index == 1 {
            Icons::Circle
        } else if index == 2 {
            Icons::Cross
        } else {
            Icons::Selector
        }
    }
}

/// A mark and where it is drawn.
#[derive(Clone, Copy, Debug, PartialEq, Eq, Structural, Hash)]
pub struct Icon {
    pub icon: Icons,
    pub pos: Position,
}

/// The unit that is selected, by where it stands.
#[derive(Clone, Copy, Debug, PartialEq, Eq, Structural, Hash)]
pub struct SelectedUnit(pub Position);

/// How many of the first `n` units stand at `from` and reach `to`.
pub open spec fn spec_movers(board: Grid, units: Seq<Unit>, from: Position, to: Position, n: int) -> int
    decreases n,
{
    if n <= 0 {
        0
    } else {
        spec_movers(board, units, from, to, n - 1) + if units[n - 1].pos == from && spec_reaches(
            board,
            from,
            to,
            units[n - 1].movement.0 as int,
        ) {
            1int
        } else {
            0int
        }
    }
}

/// The first unit, from the `k`-th on, that stands at `from` and reaches `to`.
pub open spec fn spec_first_mover(board: Grid, units: Seq<Unit>, from: Position, to: Position, k: int) -> Option<
    int,
>
    decreases units.len() - k,
{
    if k < 0 || k >= units.len() {
        None
    } else if units[k].pos == from && spec_reaches(board, from, to, units[k].movement.0 as int) {
        Some(k)
    } else {
        spec_first_mover(board, units, from, to, k + 1)
    }
}

/// Those of the first `n` actions that do not start at `pos`, in order.
pub open spec fn spec_actions_elsewhere(actions: Seq<UnitAction>, pos: Position, n: int) -> Seq<
    UnitAction,
>
    decreases n,
{
    if n <= 0 {
        Seq::empty()
    } else {
        let rest = spec_actions_elsewhere(actions, pos, n - 1);
        if actions[n - 1].curr_pos == pos {
            rest
        } else {
            rest.push(actions[n - 1])
        }
    }
}

/// A circle on each of the first `n` tiles.
pub open spec fn spec_circles(tiles: Seq<Position>, n: int) -> Seq<Icon>
    decreases n,
{
    if n <= 0 {
        Seq::empty()
    } else {
        spec_circles(tiles, n - 1).push(Icon { icon: Icons::Circle, pos: tiles[n - 1] })
    }
}

/// What a click means, as a mathematical value: the selection, the actions
/// planned, and the marks to draw.
pub struct Click {
    pub selected: Option<SelectedUnit>,
    pub actions: Seq<UnitAction>,
    pub icons: Seq<Icon>,
}

/// What a click at `at` means.
///
/// With a unit selected, the click names where it is to go: if exactly one
/// unit stands on the selected tile and reaches the clicked tile, a move of
/// that unit, in the phase in which the unit acts, replaces whatever was
/// planned from its tile, and the selection ends; otherwise nothing changes.
/// With no unit selected, the click selects: if exactly one unit stands on
/// the clicked tile, it is selected, a selector is drawn on it and a circle
/// on every tile it reaches; otherwise nothing changes.  Either way the
/// marks drawn before are gone.
pub open spec fn spec_click(
    board: Grid,
    units: Seq<Unit>,
    selected: Option<SelectedUnit>,
    actions: Seq<UnitAction>,
    at: Position,
) -> Click {
    match selected {
        Some(SelectedUnit(from)) => if spec_movers(board, units, from, at, units.len() as int) == 1 {
            let unit = units[spec_first_mover(board, units, from, at, 0).unwrap()];
            Click {
                selected: None,
                actions: spec_actions_elsewhere(actions, from, actions.len() as int).push(
                    UnitAction {
                        action_type: UnitActions::Move,
                        turn_stage: unit.turn_execute_stage,
                        curr_pos: unit.pos,
                        action_pos: at,
                    },
                ),
                icons: Seq::empty(),
            }
        } else {
            Click { selected, actions, icons: Seq::empty() }
        },
        None => if spec_units_at(units, at, units.len() as int) == 1 {
            let unit = units[spec_first_at(units, at, 0).unwrap()];
            let reach = spec_traversible(board, unit.pos, unit.movement.0 as int);
            Click {
                selected: Some(SelectedUnit(at)),
                actions,
                icons: seq![Icon { icon: Icons::Selector, pos: at }] + spec_circles(
                    reach,
                    reach.len() as int,
                ),
            }
        } else {
            Click { selected, actions, icons: Seq::empty() }
        },
    }
}

/// The unit that alone stands at `from` and reaches `to`.
fn sole_mover(board: &Gameboard, units: &Vec<Unit>, from: Position, to: Position) -> (found: Option<
    usize,
>)
    requires
        board.wf(),
    ensures
        found.is_some() == (spec_movers(board@, units@, from, to, units@.len() as int) == 1),
        found matches Some(k) ==> k < units@.len() && spec_first_mover(board@, units@, from, to, 0)
            == Some(k as int),
{
    let mut count: usize = 0;
    let mut first: Option<usize> = None;
    let mut k: usize = 0;
    while k < units.len()
        invariant
            board.wf(),
            k <= units@.len(),
            count <= k,
            count == spec_movers(board@, units@, from, to, k as int),
            match first {
                Some(f) => f < k && spec_first_mover(board@, units@, from, to, 0) == Some(f as int)
                    && count > 0,
                None => count == 0 && spec_first_mover(board@, units@, from, to, 0)
                    == spec_first_mover(board@, units@, from, to, k as int),
            },
        decreases units@.len() - k,
    {
        if units[k].pos == from && reaches(board, from, to, units[k].movement.0) {
            count = count + 1;
            if first.is_none() {
                first = Some(k);
            }
        }
        k = k + 1;
    }
    if count == 1 {
        first
    } else {
        None
    }
}

/// The actions that do not start at `pos`, in order.
fn actions_elsewhere(actions: &Vec<UnitAction>, pos: Position) -> (rest: Vec<UnitAction>)
    ensures
        rest@ == spec_actions_elsewhere(actions@, pos, actions@.len() as int),
{
    let mut rest: Vec<UnitAction> = Vec::new();
    let mut k: usize = 0;
    while k < actions.len()
        invariant
            k <= actions@.len(),
            rest@ == spec_actions_elsewhere(actions@, pos, k as int),
        decreases actions@.len() - k,
    {
        if actions[k].curr_pos != pos {
            rest.push(actions[k]);
        }
        k = k + 1;
    }
    rest
}

/// Handles a click on the map at `at`: changes the selection and the
/// actions planned, and returns the marks to draw.
pub fn select_unit(
    board: &Gameboard,
    units: &Vec<Unit>,
    selected: &mut Option<SelectedUnit>,
    actions: &mut Vec<UnitAction>,
    at: Position,
) -> (icons: Vec<Icon>)
    requires
        board.wf(),
    ensures
        (Click { selected: *final(selected), actions: final(actions)@, icons: icons@ }) == spec_click(
            board@,
            units@,
            *old(selected),
            old(actions)@,
            at,
        ),
{
    let mut icons: Vec<Icon> = Vec::new();
    assert(icons@ =~= Seq::<Icon>::empty());
    match *selected {
        Some(SelectedUnit(from)) => {
            match sole_mover(board, units, from, at) {
                Some(k) => {
                    let unit = units[k];
                    let mut planned = actions_elsewhere(actions, from);
                    planned.push(
                        UnitAction {
                            action_type: UnitActions::Move,
                            turn_stage: unit.turn_execute_stage,
                            curr_pos: unit.pos,
                            action_pos: at,
                        },
                    );
                    *actions = planned;
                    *selected = None;
                },
                None => {},
            }
        },
        None => {
            let mut count: usize = 0;
            let mut first: Option<usize> = None;
            let mut k: usize = 0;
            while k < units.len()
                invariant
                    k <= units@.len(),
                    count <= k,
                    count == spec_units_at(units@, at, k as int),
                    match first {
                        Some(f) => f < k && spec_first_at(units@, at, 0) == Some(f as int),
                        None => count == 0 && spec_first_at(units@, at, 0) == spec_first_at(
                            units@,
                            at,
                            k as int,
                        ),
                    },
                decreases units@.len() - k,
            {
                if units[k].pos == at {
                    count = count + 1;
                    if first.is_none() {
                        first = Some(k);
                    }
                }
                k = k + 1;
            }
            if count == 1 {
                match first {
                    Some(f) => {
                        let unit = units[f];
                        let reach = unit.calculate_traversible_tiles(board, unit.movement.0);
                        icons.push(Icon { icon: Icons::Selector, pos: at });
                        let mut i: usize = 0;
                        while i < reach.len()
                            invariant
                                i <= reach@.len(),
                                icons@ == seq![Icon { icon: Icons::Selector, pos: at }] + spec_circles(
                                    reach@,
                                    i as int,
                                ),
                            decreases reach@.len() - i,
                        {
                            icons.push(Icon { icon: Icons::Circle, pos: reach[i] });
                            i = i + 1;
                            assert(icons@ =~= seq![Icon { icon: Icons::Selector, pos: at }]
                                + spec_circles(reach@, i as int));
                        }
                        *selected = Some(SelectedUnit(at));
                    },
                    None => {},
                }
            }
        },
    }
    icons
}

} // verus!
