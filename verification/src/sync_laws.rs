//! What holds of every message that a resolution sends: a team is told
//! only of tiles it has seen and of units that stand on such tiles.

use vstd::prelude::*;
use crate::actions::QueuedAction;
use crate::actions::UnitActions;
use crate::gameboard::Grid;
use crate::gameboard::Tile;
use crate::position::Position;
use crate::resolver::Turn;
use crate::resolver::lemma_move_keeps;
use crate::resolver::lemma_step_keeps;
use crate::resolver::spec_apply_move;
use crate::resolver::spec_begin;
use crate::resolver::spec_discovered;
use crate::resolver::spec_keeps;
use crate::resolver::spec_move_outbound;
use crate::resolver::spec_mover;
use crate::resolver::spec_news_messages;
use crate::resolver::spec_resolve;
use crate::resolver::spec_run_stage;
use crate::resolver::spec_sees;
use crate::resolver::spec_step;
use crate::resolver::spec_unit_delta;
use crate::resolver::spec_unit_deltas;
use crate::resolver::spec_unit_messages;
use crate::schema::Outbound;
use crate::schema::PlayerTileInfo;
use crate::schema::ServerMessages;
use crate::state::World;
use crate::state::lemma_acting_unit;
use crate::team::PlayerTeam;
use crate::team::TeamColour;
use crate::team::lemma_with_is_insert;
use crate::terrain::Geography;
use crate::units::TurnExecuteStages;
use crate::units::Unit;
use crate::visibility::lemma_reveal_around_grows;
use crate::visibility::spec_column_news;
use crate::visibility::spec_news;

verus! {

/// Whether a message tells its team only what the team may know on this
/// board: a tile that the team has seen, with its true terrain or none; a
/// unit on a tile that the team has seen; the leaving of a tile that the
/// team has seen.  The resolver sends no other kind of message.
pub open spec fn spec_within_sight(board: Grid, o: Outbound) -> bool {
    match o.message {
        ServerMessages::PlayerTileInfoPacket { tile } => spec_sees(board, o.team, tile.pos) && (
        tile.geography matches Geography::Explored(t) ==> t == board.at(
            tile.pos.x as int,
            tile.pos.y as int,
        ).contents),
        ServerMessages::UnitModifyPacket { prev_pos, unit } => spec_sees(board, o.team, unit.pos)
            && spec_sees(board, o.team, prev_pos),
        ServerMessages::UnitAddPacket { unit } => spec_sees(board, o.team, unit.pos),
        ServerMessages::UnitRemovePacket { pos } => spec_sees(board, o.team, pos),
        _ => false,
    }
}

/// Whether every message of a list is within sight of its team.
pub open spec fn spec_all_within_sight(board: Grid, outbound: Seq<Outbound>) -> bool {
    forall|k: int| 0 <= k < outbound.len() ==> spec_within_sight(board, #[trigger] outbound[k])
}

/// What was within sight stays within sight when visibility grows.
pub proof fn lemma_sight_carries(before: Grid, after: Grid, outbound: Seq<Outbound>)
    requires
        spec_all_within_sight(before, outbound),
        before.visibility_kept_by(after),
        before.same_land_as(after),
    ensures
        spec_all_within_sight(after, outbound),
{
    assert forall|k: int| 0 <= k < outbound.len() implies spec_within_sight(
        after,
        #[trigger] outbound[k],
    ) by {
        let o = outbound[k];
        assert(spec_within_sight(before, o));
        lemma_sees_carries(before, after, o.team);
    }
}

/// A team that sees a tile sees it on every board that grows out of this one.
proof fn lemma_sees_carries(before: Grid, after: Grid, team: PlayerTeam)
    requires
        before.visibility_kept_by(after),
        before.same_land_as(after),
    ensures
        forall|pos: Position| #[trigger]
            spec_sees(before, team, pos) ==> spec_sees(after, team, pos) && after.at(
                pos.x as int,
                pos.y as int,
            ).contents == before.at(pos.x as int, pos.y as int).contents,
{
    assert forall|pos: Position| #[trigger] spec_sees(before, team, pos) implies spec_sees(
        after,
        team,
        pos,
    ) && after.at(pos.x as int, pos.y as int).contents == before.at(
        pos.x as int,
        pos.y as int,
    ).contents by {
        assert(before.at(pos.x as int, pos.y as int).visible_to(team));
    }
}

/// Whether what a team is told of a tile is what it learns of a tile of the
/// board by looking around: the tile lies on the board within sight, and
/// what is told is the tile as the team may know it once it has seen it.
pub open spec fn spec_is_news_of(
    board: Grid,
    center: Position,
    radius: int,
    team: PlayerTeam,
    info: PlayerTileInfo,
) -> bool {
    &&& board.holds(info.pos)
    &&& board.at(info.pos.x as int, info.pos.y as int).spec_in_sight(center, radius)
    &&& info == board.at(info.pos.x as int, info.pos.y as int).spec_revealed_to(
        team,
    ).spec_player_tile_info(team)
}

/// Every entry of a column's news is news of a tile of that column.
proof fn lemma_column_news(
    board: Grid,
    center: Position,
    radius: int,
    team: PlayerTeam,
    a: int,
    rows: int,
    k: int,
)
    requires
        board.wf(),
        0 <= a < board.width,
        0 <= rows <= board.height,
        0 <= k < spec_column_news(board.tiles[a], center, radius, team, rows).len(),
    ensures
        spec_is_news_of(
            board,
            center,
            radius,
            team,
            spec_column_news(board.tiles[a], center, radius, team, rows)[k],
        ),
    decreases rows,
{
    let below = spec_column_news(board.tiles[a], center, radius, team, rows - 1);
    if k < below.len() {
        lemma_column_news(board, center, radius, team, a, rows - 1, k);
    } else {
        let tile = board.tiles[a][rows - 1];
        assert(tile == board.at(a, rows - 1));
        assert(tile.pos == (Position { x: a as i32, y: (rows - 1) as i32 }));
    }
}

/// Every entry of a team's news is news of a tile of the board.
proof fn lemma_news(
    board: Grid,
    center: Position,
    radius: int,
    team: PlayerTeam,
    columns: int,
    k: int,
)
    requires
        board.wf(),
        0 <= columns <= board.width,
        0 <= k < spec_news(board.tiles, center, radius, team, columns).len(),
    ensures
        spec_is_news_of(
            board,
            center,
            radius,
            team,
            spec_news(board.tiles, center, radius, team, columns)[k],
        ),
    decreases columns,
{
    let before = spec_news(board.tiles, center, radius, team, columns - 1);
    if k < before.len() {
        lemma_news(board, center, radius, team, columns - 1, k);
    } else {
        assert(board.tiles[columns - 1].len() == board.height);
        lemma_column_news(board, center, radius, team, columns - 1, board.height, k - before.len());
    }
}

/// The tiles that a team is told of after looking around are within its sight.
proof fn lemma_news_within_sight(
    board: Grid,
    center: Position,
    radius: int,
    team: PlayerTeam,
    n: int,
)
    requires
        board.wf(),
        0 <= n <= board.spec_news_around(center, radius, team).len(),
    ensures
        spec_all_within_sight(
            board.spec_reveal_around(center, radius, team),
            spec_news_messages(board.spec_news_around(center, radius, team), team, n),
        ),
        spec_news_messages(board.spec_news_around(center, radius, team), team, n).len() == n,
    decreases n,
{
    let news = board.spec_news_around(center, radius, team);
    let after = board.spec_reveal_around(center, radius, team);
    if n > 0 {
        lemma_news_within_sight(board, center, radius, team, n - 1);
        lemma_news(board, center, radius, team, board.width, n - 1);
        lemma_reveal_around_grows(board, center, radius, team);
        let info = news[n - 1];
        let tile = board.at(info.pos.x as int, info.pos.y as int);
        lemma_with_is_insert(tile.visible_for, team);
        assert(after.at(info.pos.x as int, info.pos.y as int).visible_to(team));
        assert(after.at(info.pos.x as int, info.pos.y as int).contents == tile.contents);
        let messages = spec_news_messages(news, team, n);
        assert forall|k: int| 0 <= k < messages.len() implies spec_within_sight(
            after,
            #[trigger] messages[k],
        ) by {
            if k < n - 1 {
                assert(messages[k] == spec_news_messages(news, team, n - 1)[k]);
            }
        }
    }
}

/// Every unit that is discovered by a look around stands within sight.
proof fn lemma_discovered(
    world: World,
    mover: int,
    center: Position,
    radius: int,
    team: PlayerTeam,
    n: int,
    k: int,
)
    requires
        0 <= n <= world.units.len(),
        0 <= k < spec_discovered(world, mover, center, radius, team, n).len(),
    ensures
        world.board.holds(spec_discovered(world, mover, center, radius, team, n)[k].pos),
        world.board.at(
            spec_discovered(world, mover, center, radius, team, n)[k].pos.x as int,
            spec_discovered(world, mover, center, radius, team, n)[k].pos.y as int,
        ).spec_in_sight(center, radius),
    decreases n,
{
    let rest = spec_discovered(world, mover, center, radius, team, n - 1);
    if k < rest.len() {
        lemma_discovered(world, mover, center, radius, team, n - 1, k);
    }
}

/// The units that a team is told of after looking around stand within its sight.
proof fn lemma_discovered_within_sight(
    world: World,
    mover: int,
    center: Position,
    radius: int,
    team: PlayerTeam,
    n: int,
)
    requires
        world.board.wf(),
        0 <= n <= spec_discovered(
            world,
            mover,
            center,
            radius,
            team,
            world.units.len() as int,
        ).len(),
    ensures
        spec_all_within_sight(
            world.board.spec_reveal_around(center, radius, team),
            spec_unit_messages(
                spec_discovered(world, mover, center, radius, team, world.units.len() as int),
                team,
                n,
            ),
        ),
        spec_unit_messages(
            spec_discovered(world, mover, center, radius, team, world.units.len() as int),
            team,
            n,
        ).len() == n,
    decreases n,
{
    let found = spec_discovered(world, mover, center, radius, team, world.units.len() as int);
    let after = world.board.spec_reveal_around(center, radius, team);
    if n > 0 {
        lemma_discovered_within_sight(world, mover, center, radius, team, n - 1);
        lemma_discovered(world, mover, center, radius, team, world.units.len() as int, n - 1);
        lemma_reveal_around_grows(world.board, center, radius, team);
        let unit = found[n - 1];
        assert(after.at(unit.pos.x as int, unit.pos.y as int).visible_to(team));
        let messages = spec_unit_messages(found, team, n);
        assert forall|k: int| 0 <= k < messages.len() implies spec_within_sight(
            after,
            #[trigger] messages[k],
        ) by {
            if k < n - 1 {
                assert(messages[k] == spec_unit_messages(found, team, n - 1)[k]);
            }
        }
    }
}

/// What a team is told of a unit that moved lies within its sight.
proof fn lemma_delta_within_sight(board: Grid, team: PlayerTeam, prev_pos: Position, unit: Unit)
    ensures
        spec_all_within_sight(board, spec_unit_delta(board, team, prev_pos, unit)),
{
}

/// Lists of messages within sight, put one after the other, are within sight.
proof fn lemma_within_sight_joined(board: Grid, first: Seq<Outbound>, second: Seq<Outbound>)
    requires
        spec_all_within_sight(board, first),
        spec_all_within_sight(board, second),
    ensures
        spec_all_within_sight(board, first + second),
{
    let all = first + second;
    assert forall|k: int| 0 <= k < all.len() implies spec_within_sight(board, #[trigger] all[k]) by {
        if k < first.len() {
            assert(all[k] == first[k]);
        } else {
            assert(all[k] == second[k - first.len()]);
        }
    }
}

/// Every message that a move gives rise to is within sight of its team on
/// the board as the move leaves it.
pub proof fn lemma_move_tells_what_is_seen(world: World, mover: int, dest: Position)
    requires
        world.board.wf(),
        0 <= mover < world.units.len(),
    ensures
        spec_all_within_sight(
            spec_apply_move(world, mover, dest).board,
            spec_move_outbound(world, mover, dest),
        ),
{
    let unit = world.units[mover];
    let radius = unit.movement.0 as int;
    let team = unit.owner;
    let after = world.board.spec_reveal_around(dest, radius, team);
    let moved = Unit { pos: dest, ..unit };
    let news = world.board.spec_news_around(dest, radius, team);
    let found = spec_discovered(world, mover, dest, radius, team, world.units.len() as int);
    let a = spec_news_messages(news, team, news.len() as int);
    let b = spec_unit_messages(found, team, found.len() as int);
    lemma_news_within_sight(world.board, dest, radius, team, news.len() as int);
    lemma_discovered_within_sight(world, mover, dest, radius, team, found.len() as int);
    let blue = spec_unit_delta(after, PlayerTeam(TeamColour::Blue), unit.pos, moved);
    let red = spec_unit_delta(after, PlayerTeam(TeamColour::Red), unit.pos, moved);
    let purple = spec_unit_delta(after, PlayerTeam(TeamColour::Purple), unit.pos, moved);
    let yellow = spec_unit_delta(after, PlayerTeam(TeamColour::Yellow), unit.pos, moved);
    lemma_delta_within_sight(after, PlayerTeam(TeamColour::Blue), unit.pos, moved);
    lemma_delta_within_sight(after, PlayerTeam(TeamColour::Red), unit.pos, moved);
    lemma_delta_within_sight(after, PlayerTeam(TeamColour::Purple), unit.pos, moved);
    lemma_delta_within_sight(after, PlayerTeam(TeamColour::Yellow), unit.pos, moved);
    lemma_within_sight_joined(after, blue, red);
    lemma_within_sight_joined(after, blue + red, purple);
    lemma_within_sight_joined(after, blue + red + purple, yellow);
    assert(spec_unit_deltas(after, unit.pos, moved) == blue + red + purple + yellow);
    lemma_within_sight_joined(after, a, b);
    lemma_within_sight_joined(after, a + b, spec_unit_deltas(after, unit.pos, moved));
}

/// One action keeps every message sent so far within sight, and sends only
/// messages within sight.
proof fn lemma_step_within_sight(
    turn: Turn,
    actions: Seq<QueuedAction>,
    i: int,
    stage: TurnExecuteStages,
)
    requires
        turn.world.board.wf(),
        0 <= i < actions.len(),
        spec_all_within_sight(turn.world.board, turn.outbound),
    ensures
        spec_all_within_sight(
            spec_step(turn, actions, i, stage).world.board,
            spec_step(turn, actions, i, stage).outbound,
        ),
{
    let q = actions[i];
    let next = spec_step(turn, actions, i, stage);
    lemma_step_keeps(turn, actions, i, stage);
    lemma_sight_carries(turn.world.board, next.world.board, turn.outbound);
    if q.action.turn_stage.0 == stage && q.action.action_type == UnitActions::Move {
        if let Some(mover) = spec_mover(turn.world, actions, i) {
            lemma_acting_unit(turn.world.units, q.action.curr_pos, q.team, 0);
            lemma_move_tells_what_is_seen(turn.world, mover, q.action.action_pos);
            lemma_within_sight_joined(
                next.world.board,
                turn.outbound,
                spec_move_outbound(turn.world, mover, q.action.action_pos),
            );
        }
    }
}

/// A phase keeps every message sent so far within sight, and sends only
/// messages within sight.
proof fn lemma_stage_within_sight(
    turn: Turn,
    actions: Seq<QueuedAction>,
    stage: TurnExecuteStages,
    n: int,
)
    requires
        turn.world.board.wf(),
        0 <= n <= actions.len(),
        spec_all_within_sight(turn.world.board, turn.outbound),
    ensures
        spec_all_within_sight(
            spec_run_stage(turn, actions, stage, n).world.board,
            spec_run_stage(turn, actions, stage, n).outbound,
        ),
        spec_run_stage(turn, actions, stage, n).world.board.wf(),
    decreases n,
{
    if n > 0 {
        lemma_stage_within_sight(turn, actions, stage, n - 1);
        let mid = spec_run_stage(turn, actions, stage, n - 1);
        lemma_step_within_sight(mid, actions, n - 1, stage);
        lemma_step_keeps(mid, actions, n - 1, stage);
    }
}

/// Whatever the queue, a resolution tells a team only of tiles that the
/// team has seen and of units that stand on tiles that the team has seen:
/// every message it sends is within sight of its team on the board as the
/// resolution leaves it.
pub proof fn lemma_resolution_tells_what_is_seen(world: World, actions: Seq<QueuedAction>)
    requires
        world.board.wf(),
    ensures
        spec_all_within_sight(
            spec_resolve(world, actions).world.board,
            spec_resolve(world, actions).outbound,
        ),
{
    let n = actions.len() as int;
    let t0 = spec_begin(world);
    let pre = spec_run_stage(t0, actions, TurnExecuteStages::PreTurn, n);
    let mid = spec_run_stage(pre, actions, TurnExecuteStages::MidTurn, n);
    lemma_stage_within_sight(t0, actions, TurnExecuteStages::PreTurn, n);
    lemma_stage_within_sight(pre, actions, TurnExecuteStages::MidTurn, n);
    lemma_stage_within_sight(mid, actions, TurnExecuteStages::AfterTurn, n);
}

} // verus!
