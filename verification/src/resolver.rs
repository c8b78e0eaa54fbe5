//! The turn resolver: applies a queue of actions to the state in three phases.
//!
//! The phases run in the order pre-turn, mid-turn, after-turn.  Within a
//! phase the actions are taken in queue order, each against the state as the
//! actions before it left it.  An action that is contested or invalid is
//! dropped without touching the state.

use vstd::prelude::*;
use crate::actions::ActionOutcome;
use crate::actions::QueuedAction;
use crate::actions::UnitActions;
use crate::gameboard::Gameboard;
use crate::gameboard::Grid;
use crate::position::Position;
use crate::queue::PlayerMoves;
use crate::queue::spec_no_batches;
use crate::queue::spec_queue;
use crate::schema::Outbound;
use crate::schema::PlayerTileInfo;
use crate::schema::ServerMessages;
use crate::state::GameState;
use crate::state::World;
use crate::state::lemma_acting_unit;
use crate::state::lemma_first_at;
use crate::state::spec_acting_unit;
use crate::state::spec_sole_unit_at;
use crate::team::PlayerTeam;
use crate::team::TeamColour;
use crate::traversal::reaches;
use crate::traversal::spec_reaches;
use crate::units::Health;
use crate::units::TurnExecuteStages;
use crate::units::Unit;
use crate::visibility::lemma_reveal_around_grows;

verus! {

/// What became of the action at one place of the queue.
#[derive(Clone, Copy, Debug, PartialEq, Eq, Structural, Hash)]
pub struct Resolved {
    pub index: usize,
    pub outcome: ActionOutcome,
}

/// What a resolution hands back: the fate of every action, in the order in
/// which the actions were taken, and the messages for the clients.
#[derive(Clone, Debug)]
pub struct TurnReport {
    pub outcomes: Vec<Resolved>,
    pub outbound: Vec<Outbound>,
}

/// A resolution in progress, as a mathematical value.
pub struct Turn {
    pub world: World,
    pub outcomes: Seq<Resolved>,
    pub outbound: Seq<Outbound>,
}

/// How many of the first `n` actions of the queue aim at `pos`.
pub open spec fn spec_count_targeting(actions: Seq<QueuedAction>, pos: Position, n: int) -> int
    decreases n,
{
    if n <= 0 {
        0
    } else {
        spec_count_targeting(actions, pos, n - 1) + if actions[n - 1].action.action_pos == pos {
            1int
        } else {
            0int
        }
    }
}

/// Whether another action of the queue, of any kind, team or phase, aims at
/// the tile that action `i` aims at.
pub open spec fn spec_contested(actions: Seq<QueuedAction>, i: int) -> bool {
    spec_count_targeting(actions, actions[i].action.action_pos, actions.len() as int) != 1
}

/// The unit that a move moves, if the move is to apply: the move is
/// uncontested, a unit of the submitting team stands at its origin, and the
/// destination is on the board and within that unit's traversal range.
pub open spec fn spec_mover(world: World, actions: Seq<QueuedAction>, i: int) -> Option<int> {
    let q = actions[i];
    match spec_acting_unit(world.units, q.action.curr_pos, q.team, 0) {
        Some(u) => if !spec_contested(actions, i) && spec_reaches(
            world.board,
            q.action.curr_pos,
            q.action.action_pos,
            world.units[u].movement.0 as int,
        ) {
            Some(u)
        } else {
            None
        },
        None => None,
    }
}

/// The attacker and the target of an attack, if the attack is to apply: a
/// unit of the submitting team stands at its origin, and exactly one unit
/// stands on the tile it aims at.
pub open spec fn spec_duel(world: World, q: QueuedAction) -> Option<(int, int)> {
    match (
        spec_acting_unit(world.units, q.action.curr_pos, q.team, 0),
        spec_sole_unit_at(world.units, q.action.action_pos),
    ) {
        (Some(attacker), Some(target)) => Some((attacker, target)),
        _ => None,
    }
}

/// What an attack takes from the target's health: the attacker's base
/// attack less the target's base defence, and never less than nothing.
pub open spec fn spec_damage(attacker: Unit, target: Unit) -> int {
    if attacker.attack.base > target.defense.base {
        attacker.attack.base - target.defense.base
    } else {
        0
    }
}

/// The target after an attack: its health is lowered by the damage and
/// stops at zero; the unit stays on the board.
pub open spec fn spec_struck(attacker: Unit, target: Unit) -> Unit {
    Unit {
        health: Health(
            if target.health.0 > spec_damage(attacker, target) {
                (target.health.0 - spec_damage(attacker, target)) as u32
            } else {
                0u32
            },
        ),
        ..target
    }
}

/// The state after unit `mover` has moved to `dest`: the unit stands there,
/// and its team has looked around from there as far as the unit moves.
pub open spec fn spec_apply_move(world: World, mover: int, dest: Position) -> World {
    let unit = world.units[mover];
    World {
        board: world.board.spec_reveal_around(dest, unit.movement.0 as int, unit.owner),
        units: world.units.update(mover, Unit { pos: dest, ..unit }),
    }
}

/// The state after unit `attacker` has struck unit `target`.
pub open spec fn spec_apply_attack(world: World, attacker: int, target: int) -> World {
    World {
        units: world.units.update(target, spec_struck(world.units[attacker], world.units[target])),
        ..world
    }
}

/// The units, among the first `n` other than the mover, that stand on
/// tiles which the mover's team sees for the first time.
pub open spec fn spec_discovered(
    world: World,
    mover: int,
    center: Position,
    radius: int,
    team: PlayerTeam,
    n: int,
) -> Seq<Unit>
    decreases n,
{
    if n <= 0 {
        Seq::empty()
    } else {
        let rest = spec_discovered(world, mover, center, radius, team, n - 1);
        let unit = world.units[n - 1];
        if n - 1 != mover && world.board.holds(unit.pos) && world.board.at(
            unit.pos.x as int,
            unit.pos.y as int,
        ).spec_is_news(center, radius, team) {
            rest.push(unit)
        } else {
            rest
        }
    }
}

/// The first `n` of some units, each announced to `team`.
pub open spec fn spec_unit_messages(units: Seq<Unit>, team: PlayerTeam, n: int) -> Seq<Outbound>
    decreases n,
{
    if n <= 0 {
        Seq::empty()
    } else {
        spec_unit_messages(units, team, n - 1).push(
            Outbound { team, message: ServerMessages::UnitAddPacket { unit: units[n - 1] } },
        )
    }
}

/// Whether `team` has seen the tile at `pos`.
pub open spec fn spec_sees(board: Grid, team: PlayerTeam, pos: Position) -> bool {
    board.holds(pos) && board.at(pos.x as int, pos.y as int).visible_to(team)
}

/// What one team is told of a unit that went from `prev_pos` to where it
/// stands now: that it moved, if the team sees both tiles; that it appeared,
/// if it sees only the new one; that it left, if it sees only the old one;
/// nothing, if it sees neither.
pub open spec fn spec_unit_delta(board: Grid, team: PlayerTeam, prev_pos: Position, unit: Unit) -> Seq<
    Outbound,
> {
    if spec_sees(board, team, unit.pos) {
        if spec_sees(board, team, prev_pos) {
            seq![Outbound { team, message: ServerMessages::UnitModifyPacket { prev_pos, unit } }]
        } else {
            seq![Outbound { team, message: ServerMessages::UnitAddPacket { unit } }]
        }
    } else if spec_sees(board, team, prev_pos) {
        seq![Outbound { team, message: ServerMessages::UnitRemovePacket { pos: prev_pos } }]
    } else {
        Seq::empty()
    }
}

/// The first `n` tiles of a team's news, each as a message to that team.
pub open spec fn spec_news_messages(news: Seq<PlayerTileInfo>, team: PlayerTeam, n: int) -> Seq<
    Outbound,
>
    decreases n,
{
    if n <= 0 {
        Seq::empty()
    } else {
        spec_news_messages(news, team, n - 1).push(
            Outbound { team, message: ServerMessages::PlayerTileInfoPacket { tile: news[n - 1] } },
        )
    }
}

/// The messages that a move gives rise to: the tiles its team sees for the
/// first time, the units found on them, and what each team in turn is told of
/// the unit that moved.
pub open spec fn spec_move_outbound(world: World, mover: int, dest: Position) -> Seq<Outbound> {
    let unit = world.units[mover];
    let radius = unit.movement.0 as int;
    let news = world.board.spec_news_around(dest, radius, unit.owner);
    let after = world.board.spec_reveal_around(dest, radius, unit.owner);
    let moved = Unit { pos: dest, ..unit };
    let found = spec_discovered(world, mover, dest, radius, unit.owner, world.units.len() as int);
    spec_news_messages(news, unit.owner, news.len() as int) + spec_unit_messages(
        found,
        unit.owner,
        found.len() as int,
    ) + spec_unit_deltas(after, unit.pos, moved)
}

/// What every team in turn, blue first, is told of a unit that went from
/// `prev_pos` to where it stands now.
pub open spec fn spec_unit_deltas(board: Grid, prev_pos: Position, unit: Unit) -> Seq<Outbound> {
    spec_unit_delta(board, PlayerTeam(TeamColour::Blue), prev_pos, unit) + spec_unit_delta(
        board,
        PlayerTeam(TeamColour::Red),
        prev_pos,
        unit,
    ) + spec_unit_delta(board, PlayerTeam(TeamColour::Purple), prev_pos, unit) + spec_unit_delta(
        board,
        PlayerTeam(TeamColour::Yellow),
        prev_pos,
        unit,
    )
}

/// The resolution with one more outcome noted and nothing else changed.
pub open spec fn spec_noted(turn: Turn, i: int, outcome: ActionOutcome) -> Turn {
    Turn { outcomes: turn.outcomes.push(Resolved { index: i as usize, outcome }), ..turn }
}

/// Action `i` is taken in phase `stage`.  An action of another phase is
/// passed over.  A move or an attack that is valid applies; one that is not
/// bounces and leaves the state alone; a heal or a build is noted as unsupported.
pub open spec fn spec_step(
    turn: Turn,
    actions: Seq<QueuedAction>,
    i: int,
    stage: TurnExecuteStages,
) -> Turn {
    let q = actions[i];
    if q.action.turn_stage.0 != stage {
        turn
    } else {
        match q.action.action_type {
            UnitActions::Move => match spec_mover(turn.world, actions, i) {
                Some(mover) => Turn {
                    world: spec_apply_move(turn.world, mover, q.action.action_pos),
                    outcomes: turn.outcomes.push(
                        Resolved { index: i as usize, outcome: ActionOutcome::Applied },
                    ),
                    outbound: turn.outbound + spec_move_outbound(
                        turn.world,
                        mover,
                        q.action.action_pos,
                    ),
                },
                None => spec_noted(turn, i, ActionOutcome::Bounced),
            },
            UnitActions::Attack => match spec_duel(turn.world, q) {
                Some((attacker, target)) => Turn {
                    world: spec_apply_attack(turn.world, attacker, target),
                    outcomes: turn.outcomes.push(
                        Resolved { index: i as usize, outcome: ActionOutcome::Applied },
                    ),
                    outbound: turn.outbound,
                },
                None => spec_noted(turn, i, ActionOutcome::Bounced),
            },
            UnitActions::Heal => spec_noted(turn, i, ActionOutcome::Unsupported),
            UnitActions::Build => spec_noted(turn, i, ActionOutcome::Unsupported),
        }
    }
}

/// The first `n` actions of the queue are taken, in order, in phase `stage`.
pub open spec fn spec_run_stage(
    turn: Turn,
    actions: Seq<QueuedAction>,
    stage: TurnExecuteStages,
    n: int,
) -> Turn
    decreases n,
{
    if n <= 0 {
        turn
    } else {
        spec_step(spec_run_stage(turn, actions, stage, n - 1), actions, n - 1, stage)
    }
}

/// A resolution that has not taken any action yet.
pub open spec fn spec_begin(world: World) -> Turn {
    Turn { world, outcomes: Seq::empty(), outbound: Seq::empty() }
}

/// The whole queue is resolved: the three phases in their order, each over
/// the whole queue, each starting from what the one before left.
pub open spec fn spec_resolve(world: World, actions: Seq<QueuedAction>) -> Turn {
    let n = actions.len() as int;
    spec_run_stage(
        spec_run_stage(
            spec_run_stage(spec_begin(world), actions, TurnExecuteStages::PreTurn, n),
            actions,
            TurnExecuteStages::MidTurn,
            n,
        ),
        actions,
        TurnExecuteStages::AfterTurn,
        n,
    )
}

/// What a resolution keeps whatever the actions are: the shape of the board,
/// its terrain and features, every team's view of every tile it had seen,
/// and the number of units.
pub open spec fn spec_keeps(before: World, after: World) -> bool {
    &&& after.board.wf()
    &&& before.board.same_land_as(after.board)
    &&& before.board.visibility_kept_by(after.board)
    &&& after.units.len() == before.units.len()
}

/// How many actions of the queue aim at `pos`.
pub fn count_targeting(actions: &Vec<QueuedAction>, pos: Position) -> (n: usize)
    ensures
        n == spec_count_targeting(actions@, pos, actions@.len() as int),
{
    let mut n: usize = 0;
    let mut k: usize = 0;
    while k < actions.len()
        invariant
            k <= actions@.len(),
            n <= k,
            n == spec_count_targeting(actions@, pos, k as int),
        decreases actions@.len() - k,
    {
        if actions[k].action.action_pos == pos {
            n = n + 1;
        }
        k = k + 1;
    }
    n
}

/// Appends what one team is told of a unit that went from `prev_pos` to
/// where it stands now.
fn push_unit_delta(
    board: &Gameboard,
    team: PlayerTeam,
    prev_pos: Position,
    unit: Unit,
    outbound: &mut Vec<Outbound>,
)
    requires
        board.wf(),
    ensures
        final(outbound)@ == old(outbound)@ + spec_unit_delta(board@, team, prev_pos, unit),
{
    let sees_new = match board.tile_at(unit.pos) {
        Some(tile) => tile.visible_for.contains(team),
        None => false,
    };
    let sees_old = match board.tile_at(prev_pos) {
        Some(tile) => tile.visible_for.contains(team),
        None => false,
    };
    if sees_new {
        if sees_old {
            outbound.push(Outbound { team, message: ServerMessages::UnitModifyPacket { prev_pos, unit } });
        } else {
            outbound.push(Outbound { team, message: ServerMessages::UnitAddPacket { unit } });
        }
    } else if sees_old {
        outbound.push(Outbound { team, message: ServerMessages::UnitRemovePacket { pos: prev_pos } });
    }
    assert(outbound@ =~= old(outbound)@ + spec_unit_delta(board@, team, prev_pos, unit));
}

/// Appends what every team in turn is told of a unit that went from
/// `prev_pos` to where it stands now.
fn push_unit_deltas(board: &Gameboard, prev_pos: Position, unit: Unit, outbound: &mut Vec<Outbound>)
    requires
        board.wf(),
    ensures
        final(outbound)@ == old(outbound)@ + spec_unit_deltas(board@, prev_pos, unit),
{
    push_unit_delta(board, PlayerTeam(TeamColour::Blue), prev_pos, unit, outbound);
    push_unit_delta(board, PlayerTeam(TeamColour::Red), prev_pos, unit, outbound);
    push_unit_delta(board, PlayerTeam(TeamColour::Purple), prev_pos, unit, outbound);
    push_unit_delta(board, PlayerTeam(TeamColour::Yellow), prev_pos, unit, outbound);
    proof {
        lemma_append_four(
            old(outbound)@,
            spec_unit_delta(board@, PlayerTeam(TeamColour::Blue), prev_pos, unit),
            spec_unit_delta(board@, PlayerTeam(TeamColour::Red), prev_pos, unit),
            spec_unit_delta(board@, PlayerTeam(TeamColour::Purple), prev_pos, unit),
            spec_unit_delta(board@, PlayerTeam(TeamColour::Yellow), prev_pos, unit),
        );
    }
}

/// Appending four sequences one after the other appends their concatenation.
proof fn lemma_append_four<A>(s: Seq<A>, a: Seq<A>, b: Seq<A>, c: Seq<A>, d: Seq<A>)
    ensures
        s + a + b + c + d == s + (a + b + c + d),
{
    assert(s + a + b + c + d =~= s + (a + b + c + d));
}

/// A move keeps the board well formed, the land as it was, every team's
/// view, and the number of units.
pub proof fn lemma_move_keeps(world: World, mover: int, dest: Position)
    requires
        world.board.wf(),
        0 <= mover < world.units.len(),
    ensures
        spec_keeps(world, spec_apply_move(world, mover, dest)),
{
    let unit = world.units[mover];
    lemma_reveal_around_grows(world.board, dest, unit.movement.0 as int, unit.owner);
}

/// The messages of a move follow what was sent before, part by part.
proof fn lemma_move_outbound_parts(world: World, mover: int, dest: Position, sent: Seq<Outbound>)
    ensures
        ({
            let unit = world.units[mover];
            let radius = unit.movement.0 as int;
            let news = world.board.spec_news_around(dest, radius, unit.owner);
            let found = spec_discovered(
                world,
                mover,
                dest,
                radius,
                unit.owner,
                world.units.len() as int,
            );
            sent + spec_news_messages(news, unit.owner, news.len() as int) + spec_unit_messages(
                found,
                unit.owner,
                found.len() as int,
            ) + spec_unit_deltas(
                world.board.spec_reveal_around(dest, radius, unit.owner),
                unit.pos,
                Unit { pos: dest, ..unit },
            )
        }) == sent + spec_move_outbound(world, mover, dest),
{
    let unit = world.units[mover];
    let radius = unit.movement.0 as int;
    let news = world.board.spec_news_around(dest, radius, unit.owner);
    let found = spec_discovered(world, mover, dest, radius, unit.owner, world.units.len() as int);
    let a = spec_news_messages(news, unit.owner, news.len() as int);
    let b = spec_unit_messages(found, unit.owner, found.len() as int);
    let c = spec_unit_deltas(
        world.board.spec_reveal_around(dest, radius, unit.owner),
        unit.pos,
        Unit { pos: dest, ..unit },
    );
    assert(sent + a + b + c =~= sent + (a + b + c));
}

/// Appends a team's news, tile by tile.
fn push_news(outbound: &mut Vec<Outbound>, news: &Vec<PlayerTileInfo>, team: PlayerTeam)
    ensures
        final(outbound)@ == old(outbound)@ + spec_news_messages(news@, team, news@.len() as int),
{
    let mut i: usize = 0;
    while i < news.len()
        invariant
            i <= news@.len(),
            outbound@ == old(outbound)@ + spec_news_messages(news@, team, i as int),
        decreases news@.len() - i,
    {
        outbound.push(Outbound { team, message: ServerMessages::PlayerTileInfoPacket { tile: news[i] } });
        i = i + 1;
    }
}

/// Appends the announcement of each of some units to a team.
fn push_units(outbound: &mut Vec<Outbound>, units: &Vec<Unit>, team: PlayerTeam)
    ensures
        final(outbound)@ == old(outbound)@ + spec_unit_messages(units@, team, units@.len() as int),
{
    let mut i: usize = 0;
    while i < units.len()
        invariant
            i <= units@.len(),
            outbound@ == old(outbound)@ + spec_unit_messages(units@, team, i as int),
        decreases units@.len() - i,
    {
        outbound.push(Outbound { team, message: ServerMessages::UnitAddPacket { unit: units[i] } });
        i = i + 1;
    }
}

impl GameState {
    /// The unit that the move at place `i` of the queue moves, if the move is to apply.
    pub fn mover(&self, actions: &Vec<QueuedAction>, i: usize) -> (found: Option<usize>)
        requires
            self.wf(),
            i < actions@.len(),
        ensures
            match found {
                Some(u) => spec_mover(self@, actions@, i as int) == Some(u as int) && u
                    < self.units@.len(),
                None => spec_mover(self@, actions@, i as int).is_none(),
            },
    {
        let q = actions[i];
        match self.acting_unit(q.action.curr_pos, q.team) {
            Some(u) => {
                if count_targeting(actions, q.action.action_pos) == 1 && reaches(
                    &self.board,
                    q.action.curr_pos,
                    q.action.action_pos,
                    self.units[u].movement.0,
                ) {
                    Some(u)
                } else {
                    None
                }
            },
            None => None,
        }
    }

    /// The attacker and the target of an attack, if the attack is to apply.
    pub fn duel(&self, q: QueuedAction) -> (found: Option<(usize, usize)>)
        ensures
            match found {
                Some((a, t)) => spec_duel(self@, q) == Some((a as int, t as int)) && a
                    < self.units@.len() && t < self.units@.len(),
                None => spec_duel(self@, q).is_none(),
            },
    {
        match self.acting_unit(q.action.curr_pos, q.team) {
            Some(attacker) => match self.sole_unit_at(q.action.action_pos) {
                Some(target) => Some((attacker, target)),
                None => None,
            },
            None => None,
        }
    }

    /// The units other than `mover` that stand on tiles which `team` would
    /// see for the first time by looking around from `center`.
    pub fn discovered_units(&self, mover: usize, center: Position, radius: i32, team: PlayerTeam) -> (found:
        Vec<Unit>)
        requires
            self.wf(),
        ensures
            found@ == spec_discovered(
                self@,
                mover as int,
                center,
                radius as int,
                team,
                self.units@.len() as int,
            ),
    {
        let mut found: Vec<Unit> = Vec::new();
        let mut k: usize = 0;
        while k < self.units.len()
            invariant
                self.wf(),
                k <= self.units@.len(),
                found@ == spec_discovered(self@, mover as int, center, radius as int, team, k as int),
            decreases self.units@.len() - k,
        {
            let other = self.units[k];
            if k != mover {
                match self.board.tile_at(other.pos) {
                    Some(tile) => {
                        if tile.in_sight(center, radius) && !tile.visible_for.contains(team) {
                            found.push(other);
                        }
                    },
                    None => {},
                }
            }
            k = k + 1;
        }
        found
    }

    /// Moves unit `mover` to `dest`, lets its team look around from there,
    /// and appends the messages that follow.
    pub fn apply_move(&mut self, mover: usize, dest: Position, outbound: &mut Vec<Outbound>)
        requires
            old(self).wf(),
            mover < old(self).units@.len(),
        ensures
            final(self).wf(),
            final(self)@ == spec_apply_move(old(self)@, mover as int, dest),
            final(outbound)@ == old(outbound)@ + spec_move_outbound(old(self)@, mover as int, dest),
            spec_keeps(old(self)@, final(self)@),
    {
        let unit = self.units[mover];
        let team = unit.owner;
        let radius = unit.movement.0;
        let ghost before = self@;
        let ghost sent = outbound@;
        let found = self.discovered_units(mover, dest, radius, team);
        let news = self.board.reveal_around(dest, radius, team);
        push_news(outbound, &news, team);
        push_units(outbound, &found, team);
        let moved = Unit { pos: dest, ..unit };
        self.units[mover] = moved;
        push_unit_deltas(&self.board, unit.pos, moved, outbound);
        proof {
            assert(self@.units =~= spec_apply_move(before, mover as int, dest).units);
            assert(self@ == spec_apply_move(before, mover as int, dest));
            lemma_move_keeps(before, mover as int, dest);
            lemma_move_outbound_parts(before, mover as int, dest, sent);
        }
    }

    /// Lets unit `attacker` strike unit `target`.
    pub fn apply_attack(&mut self, attacker: usize, target: usize)
        requires
            attacker < old(self).units@.len(),
            target < old(self).units@.len(),
        ensures
            final(self)@ == spec_apply_attack(old(self)@, attacker as int, target as int),
            final(self).board == old(self).board,
    {
        let striker = self.units[attacker];
        let struck = self.units[target];
        let damage: u32 = if striker.attack.base > struck.defense.base {
            striker.attack.base - struck.defense.base
        } else {
            0
        };
        let health: u32 = if struck.health.0 > damage {
            struck.health.0 - damage
        } else {
            0
        };
        self.units[target] = Unit { health: Health(health), ..struck };
        assert(self@.units =~= spec_apply_attack(old(self)@, attacker as int, target as int).units);
    }
}

/// Keeping is reflexive on a well-formed board and carries over two steps.
pub proof fn lemma_keeps_carries(first: World, second: World, third: World)
    requires
        first.board.wf(),
        spec_keeps(first, second),
        spec_keeps(second, third),
    ensures
        spec_keeps(first, first),
        spec_keeps(first, third),
{
    assert forall|a: int, b: int, team: PlayerTeam|
        first.board.on_board(a, b) && (#[trigger] first.board.at(a, b).visible_to(
            team,
        )) implies third.board.at(a, b).visible_to(team) by {
        assert(second.board.at(a, b).visible_to(team));
    }
    assert forall|a: int, b: int| first.board.on_board(a, b) implies {
        &&& (#[trigger] third.board.at(a, b)).contents == first.board.at(a, b).contents
        &&& third.board.at(a, b).pos == first.board.at(a, b).pos
        &&& third.board.at(a, b).feature == first.board.at(a, b).feature
    } by {
        assert(second.board.at(a, b).contents == first.board.at(a, b).contents);
    }
}

/// One action keeps what a resolution keeps.
pub proof fn lemma_step_keeps(
    turn: Turn,
    actions: Seq<QueuedAction>,
    i: int,
    stage: TurnExecuteStages,
)
    requires
        turn.world.board.wf(),
        0 <= i < actions.len(),
    ensures
        spec_keeps(turn.world, spec_step(turn, actions, i, stage).world),
{
    let q = actions[i];
    lemma_keeps_carries(turn.world, turn.world, turn.world);
    lemma_acting_unit(turn.world.units, q.action.curr_pos, q.team, 0);
    lemma_first_at(turn.world.units, q.action.action_pos, 0);
    if q.action.turn_stage.0 == stage {
        if q.action.action_type == UnitActions::Move {
            if let Some(mover) = spec_mover(turn.world, actions, i) {
                lemma_move_keeps(turn.world, mover, q.action.action_pos);
            }
        }
    }
}

impl GameState {
    /// Takes the action at place `i` of the queue in phase `stage`.
    fn step(
        &mut self,
        actions: &Vec<QueuedAction>,
        i: usize,
        stage: TurnExecuteStages,
        outcomes: &mut Vec<Resolved>,
        outbound: &mut Vec<Outbound>,
    )
        requires
            old(self).wf(),
            i < actions@.len(),
        ensures
            final(self).wf(),
            (Turn { world: final(self)@, outcomes: final(outcomes)@, outbound: final(outbound)@ })
                == spec_step(
                Turn { world: old(self)@, outcomes: old(outcomes)@, outbound: old(outbound)@ },
                actions@,
                i as int,
                stage,
            ),
    {
        let q = actions[i];
        let ghost turn = Turn { world: self@, outcomes: outcomes@, outbound: outbound@ };
        proof {
            lemma_step_keeps(turn, actions@, i as int, stage);
        }
        if q.action.turn_stage.0 != stage {
            return ;
        }
        match q.action.action_type {
            UnitActions::Move => {
                match self.mover(actions, i) {
                    Some(mover) => {
                        self.apply_move(mover, q.action.action_pos, outbound);
                        outcomes.push(Resolved { index: i, outcome: ActionOutcome::Applied });
                    },
                    None => {
                        outcomes.push(Resolved { index: i, outcome: ActionOutcome::Bounced });
                    },
                }
            },
            UnitActions::Attack => {
                match self.duel(q) {
                    Some((attacker, target)) => {
                        self.apply_attack(attacker, target);
                        outcomes.push(Resolved { index: i, outcome: ActionOutcome::Applied });
                    },
                    None => {
                        outcomes.push(Resolved { index: i, outcome: ActionOutcome::Bounced });
                    },
                }
            },
            UnitActions::Heal => {
                outcomes.push(Resolved { index: i, outcome: ActionOutcome::Unsupported });
            },
            UnitActions::Build => {
                outcomes.push(Resolved { index: i, outcome: ActionOutcome::Unsupported });
            },
        }
    }

    /// Takes every action of the queue, in order, in phase `stage`.
    fn run_stage(
        &mut self,
        actions: &Vec<QueuedAction>,
        stage: TurnExecuteStages,
        outcomes: &mut Vec<Resolved>,
        outbound: &mut Vec<Outbound>,
    )
        requires
            old(self).wf(),
        ensures
            final(self).wf(),
            (Turn { world: final(self)@, outcomes: final(outcomes)@, outbound: final(outbound)@ })
                == spec_run_stage(
                Turn { world: old(self)@, outcomes: old(outcomes)@, outbound: old(outbound)@ },
                actions@,
                stage,
                actions@.len() as int,
            ),
    {
        let ghost start = Turn { world: self@, outcomes: outcomes@, outbound: outbound@ };
        let mut i: usize = 0;
        while i < actions.len()
            invariant
                self.wf(),
                i <= actions@.len(),
                (Turn { world: self@, outcomes: outcomes@, outbound: outbound@ }) == spec_run_stage(
                    start,
                    actions@,
                    stage,
                    i as int,
                ),
            decreases actions@.len() - i,
        {
            self.step(actions, i, stage, outcomes, outbound);
            i = i + 1;
        }
    }

    /// Resolves a queue of actions against the state: the three phases in
    /// their order, each over the whole queue.  Returns the fate of every
    /// action and the messages for the clients.
    pub fn resolve_turn(&mut self, actions: &Vec<QueuedAction>) -> (report: TurnReport)
        requires
            old(self).wf(),
        ensures
            final(self).wf(),
            final(self)@ == spec_resolve(old(self)@, actions@).world,
            report.outcomes@ == spec_resolve(old(self)@, actions@).outcomes,
            report.outbound@ == spec_resolve(old(self)@, actions@).outbound,
            spec_keeps(old(self)@, final(self)@),
            crate::sync_laws::spec_all_within_sight(final(self)@.board, report.outbound@),
    {
        let mut outcomes: Vec<Resolved> = Vec::new();
        let mut outbound: Vec<Outbound> = Vec::new();
        assert((Turn { world: self@, outcomes: outcomes@, outbound: outbound@ }) == spec_begin(self@));
        self.run_stage(actions, TurnExecuteStages::PreTurn, &mut outcomes, &mut outbound);
        self.run_stage(actions, TurnExecuteStages::MidTurn, &mut outcomes, &mut outbound);
        self.run_stage(actions, TurnExecuteStages::AfterTurn, &mut outcomes, &mut outbound);
        proof {
            lemma_resolve_keeps(old(self)@, actions@);
            crate::sync_laws::lemma_resolution_tells_what_is_seen(old(self)@, actions@);
        }
        TurnReport { outcomes, outbound }
    }
}

/// A phase keeps what a resolution keeps.
pub proof fn lemma_stage_keeps(
    turn: Turn,
    actions: Seq<QueuedAction>,
    stage: TurnExecuteStages,
    n: int,
)
    requires
        turn.world.board.wf(),
        0 <= n <= actions.len(),
    ensures
        spec_keeps(turn.world, spec_run_stage(turn, actions, stage, n).world),
    decreases n,
{
    lemma_keeps_carries(turn.world, turn.world, turn.world);
    if n > 0 {
        lemma_stage_keeps(turn, actions, stage, n - 1);
        let mid = spec_run_stage(turn, actions, stage, n - 1);
        lemma_step_keeps(mid, actions, n - 1, stage);
        lemma_keeps_carries(turn.world, mid.world, spec_step(mid, actions, n - 1, stage).world);
    }
}

/// Whatever the queue, a resolution keeps the shape of the board, its land,
/// every team's view of every tile it had seen, and the number of units.
pub proof fn lemma_resolve_keeps(world: World, actions: Seq<QueuedAction>)
    requires
        world.board.wf(),
    ensures
        spec_keeps(world, spec_resolve(world, actions).world),
{
    let n = actions.len() as int;
    let t0 = spec_begin(world);
    let t1 = spec_run_stage(t0, actions, TurnExecuteStages::PreTurn, n);
    let t2 = spec_run_stage(t1, actions, TurnExecuteStages::MidTurn, n);
    let t3 = spec_run_stage(t2, actions, TurnExecuteStages::AfterTurn, n);
    lemma_stage_keeps(t0, actions, TurnExecuteStages::PreTurn, n);
    lemma_stage_keeps(t1, actions, TurnExecuteStages::MidTurn, n);
    lemma_stage_keeps(t2, actions, TurnExecuteStages::AfterTurn, n);
    lemma_keeps_carries(world, t1.world, t2.world);
    lemma_keeps_carries(world, t2.world, t3.world);
}

/// Resolves the turn: takes the queue as the teams filled it, resolves it
/// against the state, and empties the queue, whatever became of the actions.
pub fn execute_turn(state: &mut GameState, player_moves: &mut PlayerMoves) -> (report: TurnReport)
    requires
        old(state).wf(),
    ensures
        final(state).wf(),
        final(player_moves)@ == spec_no_batches(),
        final(state)@ == spec_resolve(old(state)@, spec_queue(old(player_moves)@)).world,
        report.outcomes@ == spec_resolve(old(state)@, spec_queue(old(player_moves)@)).outcomes,
        report.outbound@ == spec_resolve(old(state)@, spec_queue(old(player_moves)@)).outbound,
        spec_keeps(old(state)@, final(state)@),
        crate::sync_laws::spec_all_within_sight(final(state)@.board, report.outbound@),
{
    let actions = player_moves.queued_actions();
    let report = state.resolve_turn(&actions);
    player_moves.clear();
    report
}

} // verus!
