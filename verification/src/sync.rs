//! The sync dispatcher: what a team is sent of the state.
//!
//! A team is told the true position of every tile, the terrain only of the
//! tiles it has seen, and only the units that stand on such tiles.

use vstd::prelude::*;
use crate::features::TileFeature;
use crate::gameboard::Gameboard;
use crate::gameboard::Grid;
use crate::gameboard::Tile;
use crate::position::Position;
use crate::resolver::spec_sees;
use crate::schema::Player;
use crate::schema::PlayerTileInfo;
use crate::schema::ServerMessages;
use crate::state::GameState;
use crate::state::World;
use crate::team::PlayerTeam;
use crate::team::lemma_with_is_insert;
use crate::terrain::Geography;
use crate::units::Unit;

verus! {

/// What `team` is told of the first `rows` tiles of a column.
pub open spec fn spec_column_projection(column: Seq<Tile>, team: PlayerTeam, rows: int) -> Seq<
    PlayerTileInfo,
>
    decreases rows,
{
    if rows <= 0 {
        Seq::empty()
    } else {
        spec_column_projection(column, team, rows - 1).push(
            column[rows - 1].spec_player_tile_info(team),
        )
    }
}

/// What `team` is told of the first `columns` columns of the board, column
/// by column and upwards within a column.
pub open spec fn spec_projection(tiles: Seq<Seq<Tile>>, team: PlayerTeam, columns: int) -> Seq<
    PlayerTileInfo,
>
    decreases columns,
{
    if columns <= 0 {
        Seq::empty()
    } else {
        spec_projection(tiles, team, columns - 1) + spec_column_projection(
            tiles[columns - 1],
            team,
            tiles[columns - 1].len() as int,
        )
    }
}

/// Those of the first `n` units that stand on tiles which `team` has seen.
pub open spec fn spec_visible_units(world: World, team: PlayerTeam, n: int) -> Seq<Unit>
    decreases n,
{
    if n <= 0 {
        Seq::empty()
    } else {
        let rest = spec_visible_units(world, team, n - 1);
        if spec_sees(world.board, team, world.units[n - 1].pos) {
            rest.push(world.units[n - 1])
        } else {
            rest
        }
    }
}

/// Whether what a team is told of a tile fits the board: the position is
/// that of a tile of the board, the terrain is told only if the team has seen
/// that tile, and the feature only if the team may know it.
pub open spec fn spec_fits_board(board: Grid, team: PlayerTeam, info: PlayerTileInfo) -> bool {
    &&& board.holds(info.pos)
    &&& info == board.at(info.pos.x as int, info.pos.y as int).spec_player_tile_info(team)
    &&& !board.at(info.pos.x as int, info.pos.y as int).visible_to(team) ==> info.geography
        == Geography::Unexplored && info.visible_features.is_none()
}

/// Every entry of a column's projection fits the board.
proof fn lemma_column_projection_fits(board: Grid, team: PlayerTeam, a: int, rows: int, k: int)
    requires
        board.wf(),
        0 <= a < board.width,
        0 <= rows <= board.height,
        0 <= k < spec_column_projection(board.tiles[a], team, rows).len(),
    ensures
        spec_column_projection(board.tiles[a], team, rows).len() == rows,
        spec_fits_board(board, team, spec_column_projection(board.tiles[a], team, rows)[k]),
        spec_column_projection(board.tiles[a], team, rows)[k].pos == (Position {
            x: a as i32,
            y: k as i32,
        }),
    decreases rows,
{
    lemma_column_projection_len(board.tiles[a], team, rows);
    if k < rows - 1 {
        lemma_column_projection_fits(board, team, a, rows - 1, k);
    } else {
        lemma_column_projection_len(board.tiles[a], team, rows - 1);
        assert(board.tiles[a][k].pos == (Position { x: a as i32, y: k as i32 }));
        assert(board.at(a, k) == board.tiles[a][k]);
    }
}

/// A column's projection has one entry for each tile.
proof fn lemma_column_projection_len(column: Seq<Tile>, team: PlayerTeam, rows: int)
    requires
        0 <= rows,
    ensures
        spec_column_projection(column, team, rows).len() == rows,
    decreases rows,
{
    if rows > 0 {
        lemma_column_projection_len(column, team, rows - 1);
    }
}

/// A team's snapshot never tells true terrain of a tile the team has not
/// seen: every entry carries the position of a tile of the board and is what
/// the team may know of that tile, which for an unseen tile is no terrain
/// and no feature.
pub proof fn lemma_projection_fits(board: Grid, team: PlayerTeam, columns: int, k: int)
    requires
        board.wf(),
        0 <= columns <= board.width,
        0 <= k < spec_projection(board.tiles, team, columns).len(),
    ensures
        spec_fits_board(board, team, spec_projection(board.tiles, team, columns)[k]),
        spec_projection(board.tiles, team, columns).len() == columns * board.height,
    decreases columns,
{
    lemma_projection_len(board, team, columns);
    if columns > 0 {
        lemma_projection_len(board, team, columns - 1);
        let before = spec_projection(board.tiles, team, columns - 1);
        let column = spec_column_projection(
            board.tiles[columns - 1],
            team,
            board.tiles[columns - 1].len() as int,
        );
        if k < before.len() {
            lemma_projection_fits(board, team, columns - 1, k);
        } else {
            lemma_column_projection_len(board.tiles[columns - 1], team, board.height);
            lemma_column_projection_fits(
                board,
                team,
                columns - 1,
                board.height,
                k - before.len(),
            );
        }
    }
}

/// A projection has one entry for each tile of the columns it covers.
proof fn lemma_projection_len(board: Grid, team: PlayerTeam, columns: int)
    requires
        board.wf(),
        0 <= columns <= board.width,
    ensures
        spec_projection(board.tiles, team, columns).len() == columns * board.height,
    decreases columns,
{
    if columns > 0 {
        lemma_projection_len(board, team, columns - 1);
        assert(board.tiles[columns - 1].len() == board.height);
        lemma_column_projection_len(board.tiles[columns - 1], team, board.height);
        assert((columns - 1) * board.height + board.height == columns * board.height)
            by (nonlinear_arith);
    } else {
        assert(columns * board.height == 0) by (nonlinear_arith)
            requires
                columns == 0,
        ;
    }
}

/// Every unit of a snapshot is a unit of the state that stands on a tile
/// which the team has seen.
pub proof fn lemma_visible_units_are_seen(world: World, team: PlayerTeam, n: int, k: int)
    requires
        0 <= n <= world.units.len(),
        0 <= k < spec_visible_units(world, team, n).len(),
    ensures
        spec_sees(world.board, team, spec_visible_units(world, team, n)[k].pos),
        exists|j: int| 0 <= j < n && world.units[j] == spec_visible_units(world, team, n)[k],
    decreases n,
{
    if n > 0 {
        let rest = spec_visible_units(world, team, n - 1);
        if k < rest.len() {
            lemma_visible_units_are_seen(world, team, n - 1, k);
            let j = choose|j: int| 0 <= j < n - 1 && world.units[j] == rest[k];
            assert(world.units[j] == spec_visible_units(world, team, n)[k]);
        } else {
            assert(world.units[n - 1] == spec_visible_units(world, team, n)[k]);
        }
    }
}

impl Gameboard {
    /// What `team` is told of every tile of the board.
    pub fn projection(&self, team: PlayerTeam) -> (tiles: Vec<PlayerTileInfo>)
        requires
            self.wf(),
        ensures
            tiles@ == spec_projection(self@.tiles, team, self@.width),
            forall|k: int| 0 <= k < tiles@.len() ==> spec_fits_board(self@, team, #[trigger] tiles@[k]),
    {
        let mut tiles: Vec<PlayerTileInfo> = Vec::new();
        let mut a: usize = 0;
        while a < self.tiles.len()
            invariant
                self.wf(),
                a <= self@.width,
                tiles@ == spec_projection(self@.tiles, team, a as int),
            decreases self@.width - a,
        {
            let ghost before = tiles@;
            let mut b: usize = 0;
            assert(self@.tiles[a as int] == self.tiles@[a as int]@);
            while b < self.tiles[a].len()
                invariant
                    self.wf(),
                    a < self@.width,
                    b <= self.tiles@[a as int]@.len(),
                    self@.tiles[a as int] == self.tiles@[a as int]@,
                    tiles@ == before + spec_column_projection(self@.tiles[a as int], team, b as int),
                decreases self.tiles@[a as int]@.len() - b,
            {
                tiles.push(self.tiles[a][b].player_tile_info(team));
                b = b + 1;
                assert(tiles@ =~= before + spec_column_projection(
                    self@.tiles[a as int],
                    team,
                    b as int,
                ));
            }
            a = a + 1;
        }
        proof {
            assert forall|k: int| 0 <= k < tiles@.len() implies spec_fits_board(
                self@,
                team,
                #[trigger] tiles@[k],
            ) by {
                lemma_projection_fits(self@, team, self@.width, k);
            }
        }
        tiles
    }

    /// Shows `team` every tile of the board and every feature on it.
    pub fn reveal_all(&mut self, team: PlayerTeam)
        requires
            old(self).wf(),
        ensures
            final(self).wf(),
            final(self)@ == old(self)@.spec_reveal_all(team),
            old(self)@.visibility_kept_by(final(self)@),
            forall|a: int, b: int|
                old(self)@.on_board(a, b) ==> (#[trigger] final(self)@.at(a, b)).visible_to(team),
    {
        let ghost before = self@;
        let mut a: usize = 0;
        while a < self.tiles.len()
            invariant
                before.wf(),
                self.x == before.width,
                self.y == before.height,
                self.tiles@.len() == before.width,
                a <= before.width,
                forall|i: int|
                    0 <= i < a ==> (#[trigger] self.tiles@[i])@ == before.spec_reveal_all(team).tiles[i],
                forall|i: int| a <= i < before.width ==> (#[trigger] self.tiles@[i])@ == before.tiles[i],
            decreases before.width - a,
        {
            let mut b: usize = 0;
            assert(before.tiles[a as int].len() == before.height);
            while b < self.tiles[a].len()
                invariant
                    before.wf(),
                    self.x == before.width,
                    self.y == before.height,
                    self.tiles@.len() == before.width,
                    a < before.width,
                    b <= before.height,
                    self.tiles@[a as int]@.len() == before.height,
                    forall|i: int|
                        0 <= i < a ==> (#[trigger] self.tiles@[i])@ == before.spec_reveal_all(
                            team,
                        ).tiles[i],
                    forall|i: int|
                        a < i < before.width ==> (#[trigger] self.tiles@[i])@ == before.tiles[i],
                    forall|j: int|
                        0 <= j < b ==> (#[trigger] self.tiles@[a as int]@[j])
                            == before.spec_reveal_all(team).tiles[a as int][j],
                    forall|j: int|
                        b <= j < before.height ==> (#[trigger] self.tiles@[a as int]@[j])
                            == before.tiles[a as int][j],
                decreases before.height - b,
            {
                let mut tile: Tile = self.tiles[a][b];
                tile.reveal_to(team);
                match tile.feature {
                    Some(f) => {
                        let mut shown: TileFeature = f;
                        shown.reveal_to(team);
                        tile.feature = Some(shown);
                    },
                    None => {},
                }
                self.tiles[a][b] = tile;
                b = b + 1;
            }
            assert(self.tiles@[a as int]@ =~= before.spec_reveal_all(team).tiles[a as int]);
            a = a + 1;
        }
        proof {
            assert(self@.tiles =~~= before.spec_reveal_all(team).tiles);
            lemma_reveal_all_grows(before, team);
        }
    }
}

/// Showing a team everything keeps the board well formed, takes no tile away
/// from any team, and leaves the team seeing every tile.
pub proof fn lemma_reveal_all_grows(board: Grid, team: PlayerTeam)
    requires
        board.wf(),
    ensures
        board.spec_reveal_all(team).wf(),
        board.visibility_kept_by(board.spec_reveal_all(team)),
        forall|a: int, b: int|
            board.on_board(a, b) ==> (#[trigger] board.spec_reveal_all(team).at(a, b)).visible_to(
                team,
            ),
{
    let after = board.spec_reveal_all(team);
    assert forall|a: int, b: int| board.on_board(a, b) implies (#[trigger] after.at(a, b)).visible_to(
        team,
    ) by {
        lemma_with_is_insert(board.at(a, b).visible_for, team);
    }
    assert forall|a: int, b: int, t: PlayerTeam|
        board.on_board(a, b) && (#[trigger] board.at(a, b).visible_to(t)) implies after.at(
        a,
        b,
    ).visible_to(t) by {
        lemma_with_is_insert(board.at(a, b).visible_for, team);
    }
    assert forall|i: int, j: int| 0 <= i < after.width && 0 <= j < after.height implies {
        &&& (#[trigger] after.tiles[i][j]).pos == (Position { x: i as i32, y: j as i32 })
        &&& after.tiles[i][j].wf()
    } by {
        assert(board.tiles[i][j].wf());
    }
}

impl GameState {
    /// The units that stand on tiles which `team` has seen.
    pub fn visible_units(&self, team: PlayerTeam) -> (units: Vec<Unit>)
        requires
            self.wf(),
        ensures
            units@ == spec_visible_units(self@, team, self.units@.len() as int),
            forall|k: int| 0 <= k < units@.len() ==> spec_sees(self@.board, team, (#[trigger] units@[k]).pos),
    {
        let mut units: Vec<Unit> = Vec::new();
        let mut k: usize = 0;
        while k < self.units.len()
            invariant
                self.wf(),
                k <= self.units@.len(),
                units@ == spec_visible_units(self@, team, k as int),
            decreases self.units@.len() - k,
        {
            let unit = self.units[k];
            let seen = match self.board.tile_at(unit.pos) {
                Some(tile) => tile.visible_for.contains(team),
                None => false,
            };
            if seen {
                units.push(unit);
            }
            k = k + 1;
        }
        proof {
            assert forall|j: int| 0 <= j < units@.len() implies spec_sees(
                self@.board,
                team,
                (#[trigger] units@[j]).pos,
            ) by {
                lemma_visible_units_are_seen(self@, team, self.units@.len() as int, j);
            }
        }
        units
    }

    /// The full snapshot for `team`: every tile as the team may know it,
    /// every unit on a tile the team has seen, the roster, and the size of
    /// the board.
    pub fn complete_game_state(&self, team: PlayerTeam, players: Vec<Player>) -> (message:
        ServerMessages)
        requires
            self.wf(),
        ensures
            message matches ServerMessages::CompleteGameStatePacket {
                tiles,
                units,
                players: roster,
                width,
                height,
            } && {
                &&& tiles@ == spec_projection(self@.board.tiles, team, self@.board.width)
                &&& units@ == spec_visible_units(self@, team, self.units@.len() as int)
                &&& roster == players
                &&& width == self.board.x
                &&& height == self.board.y
                &&& forall|k: int|
                    0 <= k < tiles@.len() ==> spec_fits_board(self@.board, team, #[trigger] tiles@[k])
                &&& forall|k: int|
                    0 <= k < units@.len() ==> spec_sees(self@.board, team, (#[trigger] units@[k]).pos)
            },
    {
        ServerMessages::CompleteGameStatePacket {
            tiles: self.board.projection(team),
            units: self.visible_units(team),
            players,
            width: self.board.x,
            height: self.board.y,
        }
    }

    /// The debug operation that shows `team` the whole map: every tile and
    /// every feature becomes visible to the team, and the snapshot that the
    /// team is owed afterwards is returned.
    pub fn debug_reveal(&mut self, team: PlayerTeam, players: Vec<Player>) -> (message: ServerMessages)
        requires
            old(self).wf(),
        ensures
            final(self).wf(),
            final(self)@.board == old(self)@.board.spec_reveal_all(team),
            final(self)@.units == old(self)@.units,
            old(self)@.board.visibility_kept_by(final(self)@.board),
            message matches ServerMessages::CompleteGameStatePacket {
                tiles,
                units,
                players: roster,
                width,
                height,
            } && {
                &&& tiles@ == spec_projection(final(self)@.board.tiles, team, final(self)@.board.width)
                &&& units@ == spec_visible_units(final(self)@, team, final(self).units@.len() as int)
                &&& roster == players
                &&& width == old(self).board.x
                &&& height == old(self).board.y
            },
    {
        self.board.reveal_all(team);
        self.complete_game_state(team, players)
    }
}

} // verus!
