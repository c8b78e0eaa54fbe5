//! Fog of war: which teams have seen which tiles.
//!
//! A team that has seen a tile keeps it: nothing here ever removes a team
//! from a tile's set.

use vstd::prelude::*;
use crate::gameboard::Gameboard;
use crate::gameboard::Grid;
use crate::gameboard::Tile;
use crate::position::Position;
use crate::schema::PlayerTileInfo;
use crate::team::PlayerTeam;
use crate::team::lemma_with_is_insert;

verus! {

impl Tile {
    /// The tile once `team` has seen it.
    pub open spec fn spec_revealed_to(self, team: PlayerTeam) -> Tile {
        Tile { visible_for: self.visible_for.spec_with(team), ..self }
    }

    /// Whether the tile lies within `radius` steps of `center`, counting
    /// horizontal and vertical steps.
    pub open spec fn spec_in_sight(self, center: Position, radius: int) -> bool {
        self.pos.manhattan(center) <= radius
    }

    /// The tile after `team` has looked around from `center`.
    pub open spec fn spec_looked_at(self, center: Position, radius: int, team: PlayerTeam) -> Tile {
        if self.spec_in_sight(center, radius) {
            self.spec_revealed_to(team)
        } else {
            self
        }
    }

    /// Whether a look around from `center` shows `team` this tile for the first time.
    pub open spec fn spec_is_news(self, center: Position, radius: int, team: PlayerTeam) -> bool {
        self.spec_in_sight(center, radius) && !self.visible_to(team)
    }

    /// Whether the tile lies within `radius` steps of `center`.
    pub fn in_sight(&self, center: Position, radius: i32) -> (near: bool)
        ensures
            near == self.spec_in_sight(center, radius as int),
    {
        radius >= 0 && self.pos.manhattan_distance(&center) <= radius as u64
    }
}

/// What `team` learns from the first `rows` tiles of a column when it looks
/// around from `center`: the tiles it had not seen, as it is now told of them.
pub open spec fn spec_column_news(
    column: Seq<Tile>,
    center: Position,
    radius: int,
    team: PlayerTeam,
    rows: int,
) -> Seq<PlayerTileInfo>
    decreases rows,
{
    if rows <= 0 {
        Seq::empty()
    } else {
        let below = spec_column_news(column, center, radius, team, rows - 1);
        let tile = column[rows - 1];
        if tile.spec_is_news(center, radius, team) {
            below.push(tile.spec_revealed_to(team).spec_player_tile_info(team))
        } else {
            below
        }
    }
}

/// What `team` learns from the first `columns` columns of a board when it
/// looks around from `center`, column by column and upwards within a column.
pub open spec fn spec_news(
    tiles: Seq<Seq<Tile>>,
    center: Position,
    radius: int,
    team: PlayerTeam,
    columns: int,
) -> Seq<PlayerTileInfo>
    decreases columns,
{
    if columns <= 0 {
        Seq::empty()
    } else {
        spec_news(tiles, center, radius, team, columns - 1) + spec_column_news(
            tiles[columns - 1],
            center,
            radius,
            team,
            tiles[columns - 1].len() as int,
        )
    }
}

impl Grid {
    /// The board after `team` has seen the tile at column `a`, row `b`.
    pub open spec fn spec_reveal(self, a: int, b: int, team: PlayerTeam) -> Grid {
        if self.on_board(a, b) {
            self.with_tile(a, b, self.at(a, b).spec_revealed_to(team))
        } else {
            self
        }
    }

    /// The board after `team` has looked around from `center`: every tile
    /// within `radius` steps is now seen by the team, and nothing else changed.
    pub open spec fn spec_reveal_around(self, center: Position, radius: int, team: PlayerTeam) -> Grid {
        Grid {
            tiles: Seq::new(
                self.width as nat,
                |a: int|
                    Seq::new(
                        self.height as nat,
                        |b: int| self.tiles[a][b].spec_looked_at(center, radius, team),
                    ),
            ),
            ..self
        }
    }

    /// The board after `team` has seen every tile.
    pub open spec fn spec_reveal_all(self, team: PlayerTeam) -> Grid {
        Grid {
            tiles: Seq::new(
                self.width as nat,
                |a: int|
                    Seq::new(
                        self.height as nat,
                        |b: int|
                            Tile {
                                feature: match self.tiles[a][b].feature {
                                    Some(f) => Some(
                                        crate::features::TileFeature {
                                            visible_to_players: f.visible_to_players.spec_with(team),
                                            ..f
                                        },
                                    ),
                                    None => None,
                                },
                                ..self.tiles[a][b].spec_revealed_to(team)
                            },
                    ),
            ),
            ..self
        }
    }

    /// What `team` learns when it looks around from `center`.
    pub open spec fn spec_news_around(self, center: Position, radius: int, team: PlayerTeam) -> Seq<
        PlayerTileInfo,
    > {
        spec_news(self.tiles, center, radius, team, self.width)
    }
}

/// A look around keeps the board well formed, changes neither terrain nor
/// features, and takes no tile away from any team.
pub proof fn lemma_reveal_around_grows(board: Grid, center: Position, radius: int, team: PlayerTeam)
    requires
        board.wf(),
    ensures
        board.spec_reveal_around(center, radius, team).wf(),
        board.same_land_as(board.spec_reveal_around(center, radius, team)),
        board.visibility_kept_by(board.spec_reveal_around(center, radius, team)),
        forall|a: int, b: int|
            board.on_board(a, b) && (#[trigger] board.at(a, b)).spec_in_sight(center, radius)
                ==> board.spec_reveal_around(center, radius, team).at(a, b).visible_to(team),
{
    let after = board.spec_reveal_around(center, radius, team);
    assert forall|a: int, b: int| board.on_board(a, b) implies (#[trigger] after.at(a, b))
        == board.at(a, b).spec_looked_at(center, radius, team) by {}
    assert forall|a: int, b: int, t: PlayerTeam|
        board.on_board(a, b) && (#[trigger] board.at(a, b).visible_to(t)) implies after.at(
        a,
        b,
    ).visible_to(t) by {
        lemma_with_is_insert(board.at(a, b).visible_for, team);
        assert(after.at(a, b) == board.at(a, b).spec_looked_at(center, radius, team));
    }
    assert forall|a: int, b: int|
        board.on_board(a, b) && (#[trigger] board.at(a, b)).spec_in_sight(
            center,
            radius,
        ) implies after.at(a, b).visible_to(team) by {
        lemma_with_is_insert(board.at(a, b).visible_for, team);
        assert(after.at(a, b) == board.at(a, b).spec_looked_at(center, radius, team));
    }
    assert forall|i: int, j: int| 0 <= i < after.width && 0 <= j < after.height implies {
        &&& (#[trigger] after.tiles[i][j]).pos == (Position { x: i as i32, y: j as i32 })
        &&& after.tiles[i][j].wf()
    } by {
        assert(after.at(i, j) == board.at(i, j).spec_looked_at(center, radius, team));
        assert(board.tiles[i][j].wf());
    }
}

/// Once a team has seen a tile it sees it on every later board: growth of
/// visibility carries over any number of steps.
pub proof fn lemma_visibility_is_kept(
    first: Grid,
    second: Grid,
    third: Grid,
    a: int,
    b: int,
    team: PlayerTeam,
)
    requires
        first.visibility_kept_by(second),
        second.visibility_kept_by(third),
    ensures
        first.visibility_kept_by(third),
        first.visibility_kept_by(first),
        first.on_board(a, b) && first.at(a, b).visible_to(team) ==> third.at(a, b).visible_to(team),
{
    assert forall|c: int, d: int, t: PlayerTeam|
        first.on_board(c, d) && (#[trigger] first.at(c, d).visible_to(t)) implies third.at(
        c,
        d,
    ).visible_to(t) by {
        assert(second.at(c, d).visible_to(t));
    }
}

/// After a tile is revealed to a team, the team sees it on that board and on
/// every board that grows out of it.
pub proof fn lemma_reveal_is_permanent(board: Grid, later: Grid, a: int, b: int, team: PlayerTeam)
    requires
        board.wf(),
        board.on_board(a, b),
        board.spec_reveal(a, b, team).visibility_kept_by(later),
    ensures
        board.spec_reveal(a, b, team).at(a, b).visible_to(team),
        later.at(a, b).visible_to(team),
        board.visibility_kept_by(board.spec_reveal(a, b, team)),
{
    let shown = board.spec_reveal(a, b, team);
    lemma_with_is_insert(board.at(a, b).visible_for, team);
    assert(board.tiles[a].len() == board.height);
    assert(shown.at(a, b) == board.at(a, b).spec_revealed_to(team));
    assert(shown.at(a, b).visible_to(team));
    assert forall|c: int, d: int, t: PlayerTeam|
        board.on_board(c, d) && (#[trigger] board.at(c, d).visible_to(t)) implies shown.at(
        c,
        d,
    ).visible_to(t) by {
        assert(board.tiles[c].len() == board.height);
        if (c, d) != (a, b) {
            assert(shown.at(c, d) == board.at(c, d));
        }
    }
}

impl Gameboard {
    /// Adds `team` to the teams that have seen the tile at column `x`, row
    /// `y`; says whether that is news.  Off the board nothing happens.
    pub fn reveal_tile(&mut self, x: usize, y: usize, team: PlayerTeam) -> (newly: bool)
        requires
            old(self).wf(),
        ensures
            final(self).wf(),
            final(self)@ == old(self)@.spec_reveal(x as int, y as int, team),
            old(self)@.visibility_kept_by(final(self)@),
            old(self)@.same_land_as(final(self)@),
            newly == (old(self)@.on_board(x as int, y as int) && !old(self)@.at(
                x as int,
                y as int,
            ).visible_to(team)),
            old(self)@.on_board(x as int, y as int) ==> final(self)@.at(
                x as int,
                y as int,
            ).visible_to(team),
    {
        if x < self.tiles.len() && y < self.y as usize {
            let mut tile: Tile = self.tiles[x][y];
            let newly = tile.reveal_to(team);
            self.tiles[x][y] = tile;
            proof {
                assert(self@.tiles =~~= old(self)@.spec_reveal(x as int, y as int, team).tiles);
                lemma_reveal_is_permanent(old(self)@, self@, x as int, y as int, team);
                assert(old(self)@.tiles[x as int][y as int].wf());
            }
            newly
        } else {
            false
        }
    }

    /// Shows `team` every tile within `radius` steps of `center`, and returns
    /// what the team is told of the tiles it had not seen before.
    pub fn reveal_around(&mut self, center: Position, radius: i32, team: PlayerTeam) -> (news: Vec<
        PlayerTileInfo,
    >)
        requires
            old(self).wf(),
        ensures
            final(self).wf(),
            final(self)@ == old(self)@.spec_reveal_around(center, radius as int, team),
            news@ == old(self)@.spec_news_around(center, radius as int, team),
            old(self)@.visibility_kept_by(final(self)@),
            old(self)@.same_land_as(final(self)@),
    {
        let mut news: Vec<PlayerTileInfo> = Vec::new();
        let ghost before = self@;
        let mut a: usize = 0;
        while a < self.tiles.len()
            invariant
                before.wf(),
                self.x == before.width,
                self.y == before.height,
                self.tiles@.len() == before.width,
                a <= before.width,
                forall|i: int|
                    0 <= i < a ==> (#[trigger] self.tiles@[i])@ == Seq::new(
                        before.height as nat,
                        |b: int| before.tiles[i][b].spec_looked_at(center, radius as int, team),
                    ),
                forall|i: int| a <= i < before.width ==> (#[trigger] self.tiles@[i])@ == before.tiles[i],
                news@ == spec_news(before.tiles, center, radius as int, team, a as int),
            decreases before.width - a,
        {
            let ghost so_far = news@;
            let mut b: usize = 0;
            assert(before.tiles[a as int].len() == before.height);
            while b < self.tiles[a].len()
                invariant
                    before.wf(),
                    self.x == before.width,
                    self.y == before.height,
                    self.tiles@.len() == before.width,
                    a < before.width,
                    b <= before.height,
                    self.tiles@[a as int]@.len() == before.height,
                    forall|i: int|
                        0 <= i < a ==> (#[trigger] self.tiles@[i])@ == Seq::new(
                            before.height as nat,
                            |b: int| before.tiles[i][b].spec_looked_at(center, radius as int, team),
                        ),
                    forall|i: int|
                        a < i < before.width ==> (#[trigger] self.tiles@[i])@ == before.tiles[i],
                    forall|j: int|
                        0 <= j < b ==> (#[trigger] self.tiles@[a as int]@[j])
                            == before.tiles[a as int][j].spec_looked_at(center, radius as int, team),
                    forall|j: int|
                        b <= j < before.height ==> (#[trigger] self.tiles@[a as int]@[j])
                            == before.tiles[a as int][j],
                    news@ == so_far + spec_column_news(
                        before.tiles[a as int],
                        center,
                        radius as int,
                        team,
                        b as int,
                    ),
                decreases before.height - b,
            {
                let mut tile: Tile = self.tiles[a][b];
                if tile.in_sight(center, radius) {
                    let newly = tile.reveal_to(team);
                    if newly {
                        news.push(tile.player_tile_info(team));
                    }
                    self.tiles[a][b] = tile;
                }
                b = b + 1;
                assert(news@ =~= so_far + spec_column_news(
                    before.tiles[a as int],
                    center,
                    radius as int,
                    team,
                    b as int,
                ));
            }
            assert(self.tiles@[a as int]@ =~= Seq::new(
                before.height as nat,
                |b: int| before.tiles[a as int][b].spec_looked_at(center, radius as int, team),
            ));
            a = a + 1;
        }
        proof {
            assert(self@.tiles =~~= before.spec_reveal_around(center, radius as int, team).tiles);
            lemma_reveal_around_grows(before, center, radius as int, team);
        }
        news
    }
}

} // verus!
