//! What holds of every resolution, whatever the state and the queue.

use vstd::prelude::*;
use crate::actions::ActionOutcome;
use crate::actions::QueuedAction;
use crate::actions::UnitActions;
use crate::position::Position;
use crate::queue::spec_no_batches;
use crate::queue::spec_queue;
use crate::resolver::Resolved;
use crate::resolver::Turn;
use crate::resolver::spec_apply_move;
use crate::resolver::spec_begin;
use crate::resolver::spec_contested;
use crate::resolver::spec_count_targeting;
use crate::resolver::spec_move_outbound;
use crate::resolver::spec_noted;
use crate::resolver::spec_resolve;
use crate::resolver::spec_run_stage;
use crate::resolver::spec_step;
use crate::state::World;
use crate::state::lemma_acting_unit;
use crate::state::spec_acting_unit;
use crate::state::spec_units_at;
use crate::traversal::spec_reaches;
use crate::units::TurnExecuteStages;

verus! {

/// Resolving an empty queue changes nothing: the state stays as it was, no
/// outcome is noted and no message is sent.  The same holds of the queue in
/// which no team has a batch.
pub proof fn lemma_empty_queue_changes_nothing(world: World)
    ensures
        spec_resolve(world, Seq::<QueuedAction>::empty()) == spec_begin(world),
        spec_resolve(world, spec_queue(spec_no_batches())) == spec_begin(world),
        spec_resolve(world, Seq::<QueuedAction>::empty()).world == world,
{
    assert(spec_queue(spec_no_batches()) =~= Seq::<QueuedAction>::empty());
}

/// The count of the actions that aim at a tile never shrinks as more of the
/// queue is counted, and counts an action that aims there.
proof fn lemma_count_grows(actions: Seq<QueuedAction>, pos: Position, m: int, n: int)
    requires
        0 <= m <= n <= actions.len(),
    ensures
        spec_count_targeting(actions, pos, m) <= spec_count_targeting(actions, pos, n),
        m < n && actions[m].action.action_pos == pos ==> spec_count_targeting(actions, pos, m)
            < spec_count_targeting(actions, pos, n),
    decreases n - m,
{
    if m < n {
        lemma_count_grows(actions, pos, m, n - 1);
        if m == n - 1 {
            assert(spec_count_targeting(actions, pos, n) == spec_count_targeting(actions, pos, m) + (
            if actions[m].action.action_pos == pos {
                1int
            } else {
                0int
            }));
        }
    }
}

/// Two actions of one queue that aim at the same tile contest each other.
pub proof fn lemma_rivals_are_contested(actions: Seq<QueuedAction>, i: int, j: int)
    requires
        0 <= i < actions.len(),
        0 <= j < actions.len(),
        i != j,
        actions[i].action.action_pos == actions[j].action.action_pos,
    ensures
        spec_contested(actions, i),
        spec_contested(actions, j),
{
    let pos = actions[i].action.action_pos;
    let n = actions.len() as int;
    let (lo, hi) = if i < j {
        (i, j)
    } else {
        (j, i)
    };
    lemma_count_grows(actions, pos, lo, hi);
    lemma_count_grows(actions, pos, hi, n);
    lemma_count_grows(actions, pos, 0, lo);
    assert(spec_count_targeting(actions, pos, 0) == 0);
}

/// A move that shares its destination with another action of the queue, of
/// whatever kind, team or phase, does not apply: the state and the messages
/// stay as they were, and in its own phase the move is noted as bounced.
pub proof fn lemma_contested_move_bounces(
    turn: Turn,
    actions: Seq<QueuedAction>,
    i: int,
    j: int,
    stage: TurnExecuteStages,
)
    requires
        0 <= i < actions.len(),
        0 <= j < actions.len(),
        i != j,
        actions[i].action.action_type == UnitActions::Move,
        actions[i].action.action_pos == actions[j].action.action_pos,
    ensures
        spec_step(turn, actions, i, stage).world == turn.world,
        spec_step(turn, actions, i, stage).outbound == turn.outbound,
        actions[i].action.turn_stage.0 == stage ==> spec_step(turn, actions, i, stage)
            == spec_noted(turn, i, ActionOutcome::Bounced),
{
    lemma_rivals_are_contested(actions, i, j);
}

/// Whether another action of the queue aims at the tile that action `i` aims at.
pub open spec fn spec_has_rival(actions: Seq<QueuedAction>, i: int) -> bool {
    exists|j: int|
        0 <= j < actions.len() && j != i && (#[trigger] actions[j]).action.action_pos
            == actions[i].action.action_pos
}

/// Whether every action of the queue is a move whose destination another
/// action of the queue aims at too.
pub open spec fn spec_all_rival_moves(actions: Seq<QueuedAction>) -> bool {
    forall|i: int|
        0 <= i < actions.len() ==> #[trigger] spec_has_rival(actions, i)
            && actions[i].action.action_type == UnitActions::Move
}

/// A phase over a queue of rival moves leaves the state and the messages alone.
proof fn lemma_rival_stage(turn: Turn, actions: Seq<QueuedAction>, stage: TurnExecuteStages, n: int)
    requires
        spec_all_rival_moves(actions),
        0 <= n <= actions.len(),
    ensures
        spec_run_stage(turn, actions, stage, n).world == turn.world,
        spec_run_stage(turn, actions, stage, n).outbound == turn.outbound,
    decreases n,
{
    if n > 0 {
        lemma_rival_stage(turn, actions, stage, n - 1);
        assert(spec_has_rival(actions, n - 1));
        let j = choose|j: int|
            0 <= j < actions.len() && j != n - 1 && (#[trigger] actions[j]).action.action_pos
                == actions[n - 1].action.action_pos;
        lemma_contested_move_bounces(
            spec_run_stage(turn, actions, stage, n - 1),
            actions,
            n - 1,
            j,
            stage,
        );
    }
}

/// When the moves of a queue all contest one another, none applies: after
/// the resolution every unit stands where it stood, the board is as it was,
/// and nothing is sent.  Two moves to one tile are the smallest such queue.
pub proof fn lemma_rival_moves_all_bounce(world: World, actions: Seq<QueuedAction>)
    requires
        spec_all_rival_moves(actions),
    ensures
        spec_resolve(world, actions).world == world,
        spec_resolve(world, actions).outbound == Seq::<crate::schema::Outbound>::empty(),
{
    let n = actions.len() as int;
    let t0 = spec_begin(world);
    let t1 = spec_run_stage(t0, actions, TurnExecuteStages::PreTurn, n);
    let t2 = spec_run_stage(t1, actions, TurnExecuteStages::MidTurn, n);
    lemma_rival_stage(t0, actions, TurnExecuteStages::PreTurn, n);
    lemma_rival_stage(t1, actions, TurnExecuteStages::MidTurn, n);
    lemma_rival_stage(t2, actions, TurnExecuteStages::AfterTurn, n);
}

/// Two moves of one queue to the same tile: neither applies.
pub proof fn lemma_two_rival_moves_bounce(world: World, first: QueuedAction, second: QueuedAction)
    requires
        first.action.action_type == UnitActions::Move,
        second.action.action_type == UnitActions::Move,
        first.action.action_pos == second.action.action_pos,
    ensures
        spec_resolve(world, seq![first, second]).world == world,
{
    let actions = seq![first, second];
    assert(actions[1].action.action_pos == actions[0].action.action_pos);
    assert(spec_has_rival(actions, 0));
    assert(spec_has_rival(actions, 1));
    lemma_rival_moves_all_bounce(world, actions);
}

/// An attack applies only when exactly one unit stands on the tile it aims
/// at: on an empty tile and on a tile with two or more units it does nothing,
/// and in its own phase it is noted as bounced.
pub proof fn lemma_attack_needs_sole_target(
    turn: Turn,
    actions: Seq<QueuedAction>,
    i: int,
    stage: TurnExecuteStages,
)
    requires
        0 <= i < actions.len(),
        actions[i].action.action_type == UnitActions::Attack,
        spec_units_at(
            turn.world.units,
            actions[i].action.action_pos,
            turn.world.units.len() as int,
        ) != 1,
    ensures
        spec_step(turn, actions, i, stage).world == turn.world,
        spec_step(turn, actions, i, stage).outbound == turn.outbound,
        actions[i].action.turn_stage.0 == stage ==> spec_step(turn, actions, i, stage)
            == spec_noted(turn, i, ActionOutcome::Bounced),
{
}

/// A heal or a build is never passed over in silence: in its own phase it
/// is noted as unsupported, and it leaves the state alone.
pub proof fn lemma_unsupported_is_noted(
    turn: Turn,
    actions: Seq<QueuedAction>,
    i: int,
    stage: TurnExecuteStages,
)
    requires
        0 <= i < actions.len(),
        actions[i].action.action_type == UnitActions::Heal || actions[i].action.action_type
            == UnitActions::Build,
        actions[i].action.turn_stage.0 == stage,
    ensures
        spec_step(turn, actions, i, stage) == spec_noted(turn, i, ActionOutcome::Unsupported),
{
}

/// A queue of one move, made by a team of a unit of its own to a tile within
/// that unit's range, applies exactly: afterwards the unit stands on the
/// destination, every other unit stands where it stood, the unit's team has
/// looked around from there, and the move is noted as applied.
pub proof fn lemma_lone_move_applies(world: World, q: QueuedAction, mover: int)
    requires
        q.action.action_type == UnitActions::Move,
        spec_acting_unit(world.units, q.action.curr_pos, q.team, 0) == Some(mover),
        spec_reaches(
            world.board,
            q.action.curr_pos,
            q.action.action_pos,
            world.units[mover].movement.0 as int,
        ),
    ensures
        spec_resolve(world, seq![q]).world == spec_apply_move(world, mover, q.action.action_pos),
        spec_resolve(world, seq![q]).world.units[mover].pos == q.action.action_pos,
        spec_resolve(world, seq![q]).outcomes == seq![
            Resolved { index: 0, outcome: ActionOutcome::Applied },
        ],
        spec_resolve(world, seq![q]).outbound == spec_move_outbound(
            world,
            mover,
            q.action.action_pos,
        ),
        forall|k: int|
            0 <= k < world.units.len() && k != mover ==> spec_resolve(
                world,
                seq![q],
            ).world.units[k] == world.units[k],
{
    let actions = seq![q];
    lemma_acting_unit(world.units, q.action.curr_pos, q.team, 0);
    assert(spec_count_targeting(actions, q.action.action_pos, 1) == 1) by {
        assert(spec_count_targeting(actions, q.action.action_pos, 0) == 0);
    }
    assert(!spec_contested(actions, 0));
    let t0 = spec_begin(world);
    let applied = Turn {
        world: spec_apply_move(world, mover, q.action.action_pos),
        outcomes: seq![Resolved { index: 0, outcome: ActionOutcome::Applied }],
        outbound: spec_move_outbound(world, mover, q.action.action_pos),
    };
    assert(t0.outcomes.push(Resolved { index: 0, outcome: ActionOutcome::Applied })
        =~= applied.outcomes);
    assert(t0.outbound + spec_move_outbound(world, mover, q.action.action_pos)
        =~= applied.outbound);
    let s = q.action.turn_stage.0;
    assert(spec_step(t0, actions, 0, s) == applied);
    lemma_single_stage(t0, actions, TurnExecuteStages::PreTurn);
    let t1 = spec_run_stage(t0, actions, TurnExecuteStages::PreTurn, 1);
    lemma_single_stage(t1, actions, TurnExecuteStages::MidTurn);
    let t2 = spec_run_stage(t1, actions, TurnExecuteStages::MidTurn, 1);
    lemma_single_stage(t2, actions, TurnExecuteStages::AfterTurn);
    assert(applied.world.units[mover].pos == q.action.action_pos);
}

/// A phase over a queue of one action is that one action taken.
proof fn lemma_single_stage(turn: Turn, actions: Seq<QueuedAction>, stage: TurnExecuteStages)
    requires
        actions.len() == 1,
    ensures
        spec_run_stage(turn, actions, stage, 1) == spec_step(turn, actions, 0, stage),
{
    assert(spec_run_stage(turn, actions, stage, 0) == turn);
}

/// An action is passed over in every phase but its own.
pub proof fn lemma_other_phase_passes_over(
    turn: Turn,
    actions: Seq<QueuedAction>,
    i: int,
    stage: TurnExecuteStages,
)
    requires
        actions[i].action.turn_stage.0 != stage,
    ensures
        spec_step(turn, actions, i, stage) == turn,
{
}

/// An action is noted once in its own phase and not at all in another.
pub proof fn lemma_step_notes_once(
    turn: Turn,
    actions: Seq<QueuedAction>,
    i: int,
    stage: TurnExecuteStages,
)
    requires
        0 <= i < actions.len(),
        actions.len() <= usize::MAX,
    ensures
        actions[i].action.turn_stage.0 != stage ==> spec_step(turn, actions, i, stage).outcomes
            == turn.outcomes,
        actions[i].action.turn_stage.0 == stage ==> {
            let after = spec_step(turn, actions, i, stage).outcomes;
            &&& after.len() == turn.outcomes.len() + 1
            &&& after.last().index == i
            &&& forall|k: int| 0 <= k < turn.outcomes.len() ==> after[k] == turn.outcomes[k]
        },
{
}

/// A phase only adds outcomes, and only of actions of that phase.
pub proof fn lemma_stage_notes_its_own(
    turn: Turn,
    actions: Seq<QueuedAction>,
    stage: TurnExecuteStages,
    n: int,
)
    requires
        0 <= n <= actions.len(),
        actions.len() <= usize::MAX,
    ensures
        turn.outcomes.len() <= spec_run_stage(turn, actions, stage, n).outcomes.len(),
        forall|k: int|
            0 <= k < turn.outcomes.len() ==> spec_run_stage(turn, actions, stage, n).outcomes[k]
                == turn.outcomes[k],
        forall|k: int|
            turn.outcomes.len() <= k < spec_run_stage(turn, actions, stage, n).outcomes.len() ==> {
                let noted = #[trigger] spec_run_stage(turn, actions, stage, n).outcomes[k];
                0 <= noted.index < n && actions[noted.index as int].action.turn_stage.0 == stage
            },
    decreases n,
{
    if n > 0 {
        lemma_stage_notes_its_own(turn, actions, stage, n - 1);
        let mid = spec_run_stage(turn, actions, stage, n - 1);
        let next = spec_step(mid, actions, n - 1, stage);
        assert(next == spec_run_stage(turn, actions, stage, n));
        lemma_step_notes_once(mid, actions, n - 1, stage);
        assert forall|k: int| turn.outcomes.len() <= k < next.outcomes.len() implies {
            let noted = #[trigger] next.outcomes[k];
            0 <= noted.index < n && actions[noted.index as int].action.turn_stage.0 == stage
        } by {
            if k < mid.outcomes.len() {
                assert(next.outcomes[k] == mid.outcomes[k]);
            }
        }
    }
}

/// The phases run in their order, and each starts from what the one before
/// left.  An after-turn action is applied to the state as every pre-turn and
/// mid-turn action of the queue has left it, wherever in the queue those
/// stand: `spec_resolve` is the after-turn phase run on the result of the
/// mid-turn phase, run on the result of the pre-turn phase; and in the
/// outcomes no action of a later phase comes before one of an earlier phase.
pub proof fn lemma_phases_in_order(world: World, actions: Seq<QueuedAction>, i: int)
    requires
        0 <= i < actions.len(),
        actions.len() <= usize::MAX,
    ensures
        ({
            let n = actions.len() as int;
            let pre = spec_run_stage(spec_begin(world), actions, TurnExecuteStages::PreTurn, n);
            let mid = spec_run_stage(pre, actions, TurnExecuteStages::MidTurn, n);
            &&& spec_resolve(world, actions) == spec_run_stage(
                mid,
                actions,
                TurnExecuteStages::AfterTurn,
                n,
            )
            &&& spec_run_stage(mid, actions, TurnExecuteStages::AfterTurn, i + 1) == spec_step(
                spec_run_stage(mid, actions, TurnExecuteStages::AfterTurn, i),
                actions,
                i,
                TurnExecuteStages::AfterTurn,
            )
            &&& spec_run_stage(pre, actions, TurnExecuteStages::MidTurn, i + 1) == spec_step(
                spec_run_stage(pre, actions, TurnExecuteStages::MidTurn, i),
                actions,
                i,
                TurnExecuteStages::MidTurn,
            )
        }),
        forall|k: int, l: int|
            0 <= k < l < spec_resolve(world, actions).outcomes.len() ==> actions[(
            #[trigger] spec_resolve(world, actions).outcomes[k]).index as int].action.turn_stage.0.spec_order()
                <= actions[(#[trigger] spec_resolve(
                world,
                actions,
            ).outcomes[l]).index as int].action.turn_stage.0.spec_order(),
{
    let n = actions.len() as int;
    let t0 = spec_begin(world);
    let pre = spec_run_stage(t0, actions, TurnExecuteStages::PreTurn, n);
    let mid = spec_run_stage(pre, actions, TurnExecuteStages::MidTurn, n);
    let all = spec_run_stage(mid, actions, TurnExecuteStages::AfterTurn, n);
    lemma_stage_notes_its_own(t0, actions, TurnExecuteStages::PreTurn, n);
    lemma_stage_notes_its_own(pre, actions, TurnExecuteStages::MidTurn, n);
    lemma_stage_notes_its_own(mid, actions, TurnExecuteStages::AfterTurn, n);
    assert forall|k: int, l: int| 0 <= k < l < all.outcomes.len() implies actions[(
    #[trigger] all.outcomes[k]).index as int].action.turn_stage.0.spec_order() <= actions[(
    #[trigger] all.outcomes[l]).index as int].action.turn_stage.0.spec_order() by {
        if k < pre.outcomes.len() {
            assert(all.outcomes[k] == mid.outcomes[k]);
            assert(mid.outcomes[k] == pre.outcomes[k]);
        } else if k < mid.outcomes.len() {
            assert(all.outcomes[k] == mid.outcomes[k]);
        }
        if l < pre.outcomes.len() {
            assert(all.outcomes[l] == mid.outcomes[l]);
            assert(mid.outcomes[l] == pre.outcomes[l]);
        } else if l < mid.outcomes.len() {
            assert(all.outcomes[l] == mid.outcomes[l]);
        }
    }
}

/// How many of the first `n` actions of the queue act in phase `stage`.
pub open spec fn spec_count_in_stage(
    actions: Seq<QueuedAction>,
    stage: TurnExecuteStages,
    n: int,
) -> int
    decreases n,
{
    if n <= 0 {
        0
    } else {
        spec_count_in_stage(actions, stage, n - 1) + if actions[n - 1].action.turn_stage.0 == stage {
            1int
        } else {
            0int
        }
    }
}

/// Every action acts in exactly one of the three phases.
proof fn lemma_stages_partition(actions: Seq<QueuedAction>, n: int)
    requires
        0 <= n <= actions.len(),
    ensures
        spec_count_in_stage(actions, TurnExecuteStages::PreTurn, n) + spec_count_in_stage(
            actions,
            TurnExecuteStages::MidTurn,
            n,
        ) + spec_count_in_stage(actions, TurnExecuteStages::AfterTurn, n) == n,
    decreases n,
{
    if n > 0 {
        lemma_stages_partition(actions, n - 1);
    }
}

/// Whether the notes hold, from place `from` on, an outcome for the action
/// at place `i` of the queue.
pub open spec fn spec_has_outcome_from(outcomes: Seq<Resolved>, from: int, i: int) -> bool {
    exists|k: int| from <= k < outcomes.len() && (#[trigger] outcomes[k]).index == i
}

/// A phase notes one outcome for each action of that phase, and every such
/// action among those taken has its outcome in the notes.
proof fn lemma_stage_notes_all(
    turn: Turn,
    actions: Seq<QueuedAction>,
    stage: TurnExecuteStages,
    n: int,
)
    requires
        0 <= n <= actions.len(),
        actions.len() <= usize::MAX,
    ensures
        spec_run_stage(turn, actions, stage, n).outcomes.len() == turn.outcomes.len()
            + spec_count_in_stage(actions, stage, n),
        forall|i: int|
            0 <= i < n && actions[i].action.turn_stage.0 == stage ==> #[trigger] spec_has_outcome_from(
                spec_run_stage(turn, actions, stage, n).outcomes,
                turn.outcomes.len() as int,
                i,
            ),
    decreases n,
{
    if n > 0 {
        lemma_stage_notes_all(turn, actions, stage, n - 1);
        let mid = spec_run_stage(turn, actions, stage, n - 1);
        let next = spec_run_stage(turn, actions, stage, n);
        let from = turn.outcomes.len() as int;
        lemma_step_notes_once(mid, actions, n - 1, stage);
        lemma_stage_keeps_notes(turn, actions, stage, n - 1);
        assert forall|i: int|
            0 <= i < n && actions[i].action.turn_stage.0
                == stage implies #[trigger] spec_has_outcome_from(next.outcomes, from, i) by {
            if i < n - 1 {
                assert(spec_has_outcome_from(mid.outcomes, from, i));
                let k = choose|k: int|
                    from <= k < mid.outcomes.len() && (#[trigger] mid.outcomes[k]).index == i;
                assert(next.outcomes[k] == mid.outcomes[k]);
                assert(from <= k < next.outcomes.len() && next.outcomes[k].index == i);
            } else {
                let k = next.outcomes.len() - 1;
                assert(next.outcomes.last() == next.outcomes[k]);
                assert(from <= k < next.outcomes.len() && next.outcomes[k].index == i);
            }
        }
    }
}

/// Whether the notes hold an outcome for the action at place `i` of the queue.
pub open spec fn spec_has_outcome(outcomes: Seq<Resolved>, i: int) -> bool {
    exists|k: int| 0 <= k < outcomes.len() && (#[trigger] outcomes[k]).index == i
}

/// Every action of the queue is taken exactly once, whatever becomes of it:
/// the report holds as many outcomes as the queue holds actions, and one for
/// each place of the queue.
pub proof fn lemma_every_action_is_taken_once(world: World, actions: Seq<QueuedAction>)
    requires
        actions.len() <= usize::MAX,
    ensures
        spec_resolve(world, actions).outcomes.len() == actions.len(),
        forall|i: int|
            0 <= i < actions.len() ==> #[trigger] spec_has_outcome(
                spec_resolve(world, actions).outcomes,
                i,
            ),
{
    let n = actions.len() as int;
    let t0 = spec_begin(world);
    let pre = spec_run_stage(t0, actions, TurnExecuteStages::PreTurn, n);
    let mid = spec_run_stage(pre, actions, TurnExecuteStages::MidTurn, n);
    let all = spec_run_stage(mid, actions, TurnExecuteStages::AfterTurn, n);
    lemma_stage_notes_all(t0, actions, TurnExecuteStages::PreTurn, n);
    lemma_stage_notes_all(pre, actions, TurnExecuteStages::MidTurn, n);
    lemma_stage_notes_all(mid, actions, TurnExecuteStages::AfterTurn, n);
    lemma_stages_partition(actions, n);
    lemma_stage_keeps_notes(pre, actions, TurnExecuteStages::MidTurn, n);
    lemma_stage_keeps_notes(mid, actions, TurnExecuteStages::AfterTurn, n);
    assert forall|i: int| 0 <= i < actions.len() implies #[trigger] spec_has_outcome(
        all.outcomes,
        i,
    ) by {
        let stage = actions[i].action.turn_stage.0;
        match stage {
            TurnExecuteStages::PreTurn => {
                assert(spec_has_outcome_from(pre.outcomes, 0, i));
                let k = choose|k: int|
                    0 <= k < pre.outcomes.len() && (#[trigger] pre.outcomes[k]).index == i;
                assert(mid.outcomes[k] == pre.outcomes[k]);
                assert(all.outcomes[k] == mid.outcomes[k]);
            },
            TurnExecuteStages::MidTurn => {
                assert(spec_has_outcome_from(mid.outcomes, pre.outcomes.len() as int, i));
                let k = choose|k: int|
                    pre.outcomes.len() <= k < mid.outcomes.len() && (#[trigger] mid.outcomes[k]).index
                        == i;
                assert(all.outcomes[k] == mid.outcomes[k]);
            },
            TurnExecuteStages::AfterTurn => {
                assert(spec_has_outcome_from(all.outcomes, mid.outcomes.len() as int, i));
                let k = choose|k: int|
                    mid.outcomes.len() <= k < all.outcomes.len() && (#[trigger] all.outcomes[k]).index
                        == i;
            },
        }
    }
}

/// A phase keeps the outcomes noted before it.
proof fn lemma_stage_keeps_notes(
    turn: Turn,
    actions: Seq<QueuedAction>,
    stage: TurnExecuteStages,
    n: int,
)
    requires
        0 <= n <= actions.len(),
        actions.len() <= usize::MAX,
    ensures
        turn.outcomes.len() <= spec_run_stage(turn, actions, stage, n).outcomes.len(),
        forall|k: int|
            0 <= k < turn.outcomes.len() ==> #[trigger] spec_run_stage(
                turn,
                actions,
                stage,
                n,
            ).outcomes[k] == turn.outcomes[k],
    decreases n,
{
    if n > 0 {
        lemma_stage_keeps_notes(turn, actions, stage, n - 1);
        lemma_step_notes_once(spec_run_stage(turn, actions, stage, n - 1), actions, n - 1, stage);
    }
}

} // verus!
