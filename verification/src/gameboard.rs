//! The tile grid: bounds-checked lookup, neighbours, and the per-team view of a tile.

use vstd::prelude::*;
use crate::features::TileFeature;
use crate::position::Position;
use crate::schema::PlayerTileInfo;
use crate::team::PlayerTeam;
use crate::team::TeamSet;
use crate::terrain::Geography;
use crate::terrain::Terrain;

verus! {

/// Largest width or height of a board: coordinates are 32-bit signed.
pub const MAX_SIDE: u32 = 0x7fff_ffff;

/// One square of the board.
#[derive(Clone, Copy, Debug, PartialEq, Eq, Structural, Hash)]
pub struct Tile {
    pub contents: Terrain,
    pub feature: Option<TileFeature>,
    pub visible_for: TeamSet,
    pub pos: Position,
}

impl Tile {
    /// The tile lies in the non-negative quadrant and its feature, if any, stands on it.
    pub open spec fn wf(self) -> bool {
        &&& self.pos.x >= 0
        &&& self.pos.y >= 0
        &&& self.feature matches Some(f) ==> f.pos == self.pos
    }

    /// Whether `team` has ever seen the tile.
    pub open spec fn visible_to(self, team: PlayerTeam) -> bool {
        self.visible_for.has(team)
    }

    /// The feature as `team` is allowed to know it: present only if the tile
    /// is visible to the team and the feature is shown to it.
    pub open spec fn spec_feature_for(self, team: PlayerTeam) -> Option<TileFeature> {
        match self.feature {
            Some(f) => if self.visible_to(team) && f.spec_shown_to(team) {
                Some(f)
            } else {
                None
            },
            None => None,
        }
    }

    /// The tile as `team` is allowed to know it: always the true position,
    /// the true terrain only if the team has seen the tile.
    pub open spec fn spec_player_tile_info(self, team: PlayerTeam) -> PlayerTileInfo {
        PlayerTileInfo {
            pos: self.pos,
            geography: if self.visible_to(team) {
                Geography::Explored(self.contents)
            } else {
                Geography::Unexplored
            },
            visible_features: self.spec_feature_for(team),
        }
    }

    /// A tile that nobody has seen and nothing stands on.
    pub fn new(contents: Terrain, pos: Position) -> (tile: Tile)
        ensures
            tile == (Tile {
                contents,
                feature: None,
                visible_for: TeamSet { blue: false, red: false, purple: false, yellow: false },
                pos,
            }),
            forall|team: PlayerTeam| !tile.visible_to(team),
    {
        Tile { contents, feature: None, visible_for: TeamSet::empty(), pos }
    }

    /// Column and row of the tile as indices.
    pub fn pos_usize(&self) -> (at: (usize, usize))
        requires
            self.wf(),
        ensures
            at.0 == self.pos.x,
            at.1 == self.pos.y,
    {
        (self.pos.x as usize, self.pos.y as usize)
    }

    /// Where the tile lies.
    pub fn pos(&self) -> (p: Position)
        ensures
            p == self.pos,
    {
        self.pos
    }

    /// Cost of entering the tile.
    pub fn movement_cost(&self) -> (cost: u64)
        ensures
            cost == self.contents.spec_movement_cost(),
            900 <= cost <= 2520,
            self.contents == Terrain::Grass ==> cost == crate::terrain::COST_SCALE,
    {
        self.contents.movement_cost()
    }

    /// Adds `team` to the teams that have seen the tile; says whether that is news.
    /// Nothing else about the tile changes, and doing it twice changes nothing more.
    pub fn reveal_to(&mut self, team: PlayerTeam) -> (newly: bool)
        ensures
            *final(self) == (Tile { visible_for: old(self).visible_for.spec_with(team), ..*old(self) }),
            final(self).visible_to(team),
            final(self).visible_for@ == old(self).visible_for@.insert(team),
            newly == !old(self).visible_to(team),
            !newly ==> *final(self) == *old(self),
    {
        proof {
            crate::team::lemma_with_is_insert(self.visible_for, team);
        }
        self.visible_for.insert(team)
    }

    /// The tile as `team` is allowed to know it.
    pub fn player_tile_info(&self, team: PlayerTeam) -> (info: PlayerTileInfo)
        ensures
            info == self.spec_player_tile_info(team),
    {
        let seen = self.visible_for.contains(team);
        let geography = if seen {
            Geography::Explored(self.contents)
        } else {
            Geography::Unexplored
        };
        let visible_features = match self.feature {
            Some(f) => if seen && f.shown_to(team) {
                Some(f)
            } else {
                None
            },
            None => None,
        };
        PlayerTileInfo { pos: self.pos, geography, visible_features }
    }
}

/// The board as a mathematical value: `width` columns of `height` tiles.
pub struct Grid {
    pub width: int,
    pub height: int,
    pub tiles: Seq<Seq<Tile>>,
}

impl Grid {
    /// The grid is rectangular with the stated sides, and every tile knows where it lies.
    pub open spec fn wf(self) -> bool {
        &&& 0 <= self.width <= MAX_SIDE
        &&& 0 <= self.height <= MAX_SIDE
        &&& self.tiles.len() == self.width
        &&& forall|i: int| 0 <= i < self.width ==> (#[trigger] self.tiles[i]).len() == self.height
        &&& forall|i: int, j: int|
            0 <= i < self.width && 0 <= j < self.height ==> {
                &&& (#[trigger] self.tiles[i][j]).pos == (Position { x: i as i32, y: j as i32 })
                &&& self.tiles[i][j].wf()
            }
    }

    /// Whether column `a`, row `b` is on the board.
    pub open spec fn on_board(self, a: int, b: int) -> bool {
        0 <= a < self.width && 0 <= b < self.height
    }

    /// Whether a position is on the board.
    pub open spec fn holds(self, p: Position) -> bool {
        self.on_board(p.x as int, p.y as int)
    }

    /// The tile at column `a`, row `b`.
    pub open spec fn at(self, a: int, b: int) -> Tile {
        self.tiles[a][b]
    }

    /// The tile at column `a`, row `b`, if that is on the board.
    pub open spec fn spec_tile(self, a: int, b: int) -> Option<Tile> {
        if self.on_board(a, b) {
            Some(self.at(a, b))
        } else {
            None
        }
    }

    /// The board with the tile at column `a`, row `b` replaced.
    pub open spec fn with_tile(self, a: int, b: int, tile: Tile) -> Grid {
        Grid { tiles: self.tiles.update(a, self.tiles[a].update(b, tile)), ..self }
    }

    /// The one-element sequence of a square that is on the board, the empty
    /// sequence for one that is not.
    pub open spec fn spec_if_on_board(self, a: int, b: int) -> Seq<(int, int)> {
        if self.on_board(a, b) {
            seq![(a, b)]
        } else {
            Seq::empty()
        }
    }

    /// The squares that touch column `a`, row `b` by a side or a corner and
    /// lie on the board, column by column and upwards within a column.
    pub open spec fn spec_adjacent(self, a: int, b: int) -> Seq<(int, int)> {
        self.spec_if_on_board(a - 1, b - 1) + self.spec_if_on_board(a - 1, b)
            + self.spec_if_on_board(a - 1, b + 1) + self.spec_if_on_board(a, b - 1)
            + self.spec_if_on_board(a, b + 1) + self.spec_if_on_board(a + 1, b - 1)
            + self.spec_if_on_board(a + 1, b) + self.spec_if_on_board(a + 1, b + 1)
    }

    /// Visibility has only grown from `self` to `later`: the boards have the
    /// same shape, and whoever saw a tile still sees it.
    pub open spec fn visibility_kept_by(self, later: Grid) -> bool {
        &&& later.width == self.width
        &&& later.height == self.height
        &&& forall|a: int, b: int, team: PlayerTeam|
            self.on_board(a, b) && (#[trigger] self.at(a, b).visible_to(team)) ==> later.at(
                a,
                b,
            ).visible_to(team)
    }

    /// Terrain, positions and features are the same on both boards.
    pub open spec fn same_land_as(self, other: Grid) -> bool {
        &&& other.width == self.width
        &&& other.height == self.height
        &&& forall|a: int, b: int|
            self.on_board(a, b) ==> {
                &&& (#[trigger] other.at(a, b)).contents == self.at(a, b).contents
                &&& other.at(a, b).pos == self.at(a, b).pos
                &&& other.at(a, b).feature == self.at(a, b).feature
            }
    }
}

/// The terrain that a vector of columns stands for.
pub open spec fn terrain_view(terrain: Vec<Vec<Terrain>>) -> Seq<Seq<Terrain>> {
    Seq::new(terrain@.len(), |a: int| terrain@[a]@)
}

/// The number of rows of a grid of terrain: the length of its first column.
pub open spec fn spec_land_height(terrain: Seq<Seq<Terrain>>) -> int {
    if terrain.len() == 0 {
        0
    } else {
        terrain[0].len() as int
    }
}

/// Whether a grid of terrain can be the land of a board: every column is as
/// long as the first, and no side is longer than a board can be.
pub open spec fn spec_is_land(terrain: Seq<Seq<Terrain>>) -> bool {
    &&& terrain.len() <= MAX_SIDE
    &&& spec_land_height(terrain) <= MAX_SIDE
    &&& forall|a: int| 0 <= a < terrain.len() ==> (#[trigger] terrain[a]).len() == spec_land_height(terrain)
}

/// The board: `x` columns of `y` tiles each.
#[derive(Clone, Debug)]
pub struct Gameboard {
    pub tiles: Vec<Vec<Tile>>,
    pub x: u32,
    pub y: u32,
}

impl View for Gameboard {
    type V = Grid;

    open spec fn view(&self) -> Grid {
        Grid {
            width: self.x as int,
            height: self.y as int,
            tiles: Seq::new(self.tiles@.len(), |a: int| self.tiles@[a]@),
        }
    }
}

impl Gameboard {
    /// The grid is rectangular with the stated sides, and every tile knows where it lies.
    pub open spec fn wf(self) -> bool {
        self@.wf()
    }

    /// A board of one terrain that nobody has seen yet.
    pub fn new(width: u32, height: u32, fill: Terrain) -> (board: Gameboard)
        requires
            width <= MAX_SIDE,
            height <= MAX_SIDE,
        ensures
            board.wf(),
            board.x == width,
            board.y == height,
            forall|a: int, b: int|
                board@.on_board(a, b) ==> #[trigger] board@.at(a, b) == (Tile {
                    contents: fill,
                    feature: None,
                    visible_for: TeamSet { blue: false, red: false, purple: false, yellow: false },
                    pos: Position { x: a as i32, y: b as i32 },
                }),
    {
        let mut tiles: Vec<Vec<Tile>> = Vec::new();
        let mut i: u32 = 0;
        while i < width
            invariant
                i <= width,
                width <= MAX_SIDE,
                height <= MAX_SIDE,
                tiles@.len() == i,
                forall|a: int| 0 <= a < i ==> (#[trigger] tiles@[a])@.len() == height,
                forall|a: int, b: int|
                    0 <= a < i && 0 <= b < height ==> #[trigger] tiles@[a]@[b] == (Tile {
                        contents: fill,
                        feature: None,
                        visible_for: TeamSet {
                            blue: false,
                            red: false,
                            purple: false,
                            yellow: false,
                        },
                        pos: Position { x: a as i32, y: b as i32 },
                    }),
            decreases width - i,
        {
            let mut column: Vec<Tile> = Vec::new();
            let mut j: u32 = 0;
            while j < height
                invariant
                    j <= height,
                    i < width,
                    width <= MAX_SIDE,
                    height <= MAX_SIDE,
                    column@.len() == j,
                    forall|b: int|
                        0 <= b < j ==> #[trigger] column@[b] == (Tile {
                            contents: fill,
                            feature: None,
                            visible_for: TeamSet {
                                blue: false,
                                red: false,
                                purple: false,
                                yellow: false,
                            },
                            pos: Position { x: i as i32, y: b as i32 },
                        }),
                decreases height - j,
            {
                column.push(Tile::new(fill, Position { x: i as i32, y: j as i32 }));
                j = j + 1;
            }
            tiles.push(column);
            i = i + 1;
        }
        Gameboard { tiles, x: width, y: height }
    }

    /// A board that nobody has seen yet, of the given terrain; none when the
    /// terrain is not a rectangle or has a side longer than a board can be.
    pub fn from_terrain(terrain: &Vec<Vec<Terrain>>) -> (made: Option<Gameboard>)
        ensures
            made.is_some() == spec_is_land(terrain_view(*terrain)),
            made matches Some(board) ==> {
                &&& board.wf()
                &&& board.x == terrain@.len()
                &&& board.y == spec_land_height(terrain_view(*terrain))
                &&& forall|a: int, b: int|
                    board@.on_board(a, b) ==> #[trigger] board@.at(a, b) == (Tile {
                        contents: terrain_view(*terrain)[a][b],
                        feature: None,
                        visible_for: TeamSet { blue: false, red: false, purple: false, yellow: false },
                        pos: Position { x: a as i32, y: b as i32 },
                    })
            },
    {
        let ghost land = terrain_view(*terrain);
        if terrain.len() > MAX_SIDE as usize {
            return None;
        }
        let height: usize = if terrain.len() == 0 {
            0
        } else {
            assert(land[0] == terrain@[0]@);
            terrain[0].len()
        };
        if height > MAX_SIDE as usize {
            return None;
        }
        let mut tiles: Vec<Vec<Tile>> = Vec::new();
        let mut a: usize = 0;
        while a < terrain.len()
            invariant
                a <= terrain@.len(),
                terrain@.len() <= MAX_SIDE,
                height <= MAX_SIDE,
                height == spec_land_height(land),
                land == terrain_view(*terrain),
                tiles@.len() == a,
                forall|i: int| 0 <= i < a ==> (#[trigger] terrain@[i])@.len() == height,
                forall|i: int| 0 <= i < a ==> (#[trigger] tiles@[i])@.len() == height,
                forall|i: int, j: int|
                    0 <= i < a && 0 <= j < height ==> #[trigger] tiles@[i]@[j] == (Tile {
                        contents: land[i][j],
                        feature: None,
                        visible_for: TeamSet {
                            blue: false,
                            red: false,
                            purple: false,
                            yellow: false,
                        },
                        pos: Position { x: i as i32, y: j as i32 },
                    }),
            decreases terrain@.len() - a,
        {
            assert(land[a as int] == terrain@[a as int]@);
            if terrain[a].len() != height {
                assert(land[a as int].len() != spec_land_height(land));
                return None;
            }
            let mut column: Vec<Tile> = Vec::new();
            let mut b: usize = 0;
            while b < height
                invariant
                    b <= height,
                    a < terrain@.len(),
                    terrain@.len() <= MAX_SIDE,
                    height <= MAX_SIDE,
                    terrain@[a as int]@.len() == height,
                    land[a as int] == terrain@[a as int]@,
                    column@.len() == b,
                    forall|j: int|
                        0 <= j < b ==> #[trigger] column@[j] == (Tile {
                            contents: land[a as int][j],
                            feature: None,
                            visible_for: TeamSet {
                                blue: false,
                                red: false,
                                purple: false,
                                yellow: false,
                            },
                            pos: Position { x: a as i32, y: j as i32 },
                        }),
                decreases height - b,
            {
                column.push(Tile::new(terrain[a][b], Position { x: a as i32, y: b as i32 }));
                b = b + 1;
            }
            tiles.push(column);
            a = a + 1;
        }
        let board = Gameboard { tiles, x: terrain.len() as u32, y: height as u32 };
        proof {
            assert forall|i: int| 0 <= i < land.len() implies (#[trigger] land[i]).len()
                == spec_land_height(land) by {
                assert(terrain@[i]@.len() == height);
            }
            assert forall|i: int, j: int| board@.on_board(i, j) implies #[trigger] board@.at(i, j)
                == (Tile {
                contents: land[i][j],
                feature: None,
                visible_for: TeamSet { blue: false, red: false, purple: false, yellow: false },
                pos: Position { x: i as i32, y: j as i32 },
            }) by {
                assert(board@.at(i, j) == tiles@[i]@[j]);
            }
            assert forall|i: int| 0 <= i < board@.width implies (#[trigger] board@.tiles[i]).len()
                == board@.height by {
                assert(tiles@[i]@.len() == height);
            }
            assert forall|i: int, j: int| 0 <= i < board@.width && 0 <= j < board@.height implies {
                &&& (#[trigger] board@.tiles[i][j]).pos == (Position { x: i as i32, y: j as i32 })
                &&& board@.tiles[i][j].wf()
            } by {
                assert(board@.at(i, j) == tiles@[i]@[j]);
            }
        }
        Some(board)
    }

    /// Whether the grid is rectangular with the stated sides and every tile
    /// knows where it lies: what every other function here relies on.
    pub fn is_well_formed(&self) -> (ok: bool)
        ensures
            ok == self.wf(),
    {
        if self.x > MAX_SIDE || self.y > MAX_SIDE || self.tiles.len() != self.x as usize {
            return false;
        }
        let mut a: usize = 0;
        while a < self.tiles.len()
            invariant
                self.x <= MAX_SIDE,
                self.y <= MAX_SIDE,
                self.tiles@.len() == self.x,
                a <= self.tiles@.len(),
                forall|i: int| 0 <= i < a ==> (#[trigger] self.tiles@[i])@.len() == self.y,
                forall|i: int, j: int|
                    0 <= i < a && 0 <= j < self.y ==> {
                        &&& (#[trigger] self.tiles@[i]@[j]).pos == (Position {
                            x: i as i32,
                            y: j as i32,
                        })
                        &&& self.tiles@[i]@[j].wf()
                    },
            decreases self.tiles@.len() - a,
        {
            if self.tiles[a].len() != self.y as usize {
                assert(self@.tiles[a as int].len() != self@.height);
                return false;
            }
            let mut b: usize = 0;
            while b < self.tiles[a].len()
                invariant
                    self.x <= MAX_SIDE,
                    self.y <= MAX_SIDE,
                    self.tiles@.len() == self.x,
                    a < self.tiles@.len(),
                    self.tiles@[a as int]@.len() == self.y,
                    b <= self.y,
                    forall|j: int|
                        0 <= j < b ==> {
                            &&& (#[trigger] self.tiles@[a as int]@[j]).pos == (Position {
                                x: a as i32,
                                y: j as i32,
                            })
                            &&& self.tiles@[a as int]@[j].wf()
                        },
                decreases self.y - b,
            {
                let tile = self.tiles[a][b];
                let feature_fits = match tile.feature {
                    Some(f) => f.pos == tile.pos,
                    None => true,
                };
                if tile.pos.x != a as i32 || tile.pos.y != b as i32 || !feature_fits {
                    assert(self@.tiles[a as int][b as int] == self.tiles@[a as int]@[b as int]);
                    assert(!(self@.tiles[a as int][b as int].pos == (Position {
                        x: a as i32,
                        y: b as i32,
                    }) && self@.tiles[a as int][b as int].wf()));
                    return false;
                }
                b = b + 1;
            }
            a = a + 1;
        }
        assert forall|i: int, j: int| 0 <= i < self@.width && 0 <= j < self@.height implies {
            &&& (#[trigger] self@.tiles[i][j]).pos == (Position { x: i as i32, y: j as i32 })
            &&& self@.tiles[i][j].wf()
        } by {
            assert(self@.tiles[i][j] == self.tiles@[i]@[j]);
        }
        assert forall|i: int| 0 <= i < self@.width implies (#[trigger] self@.tiles[i]).len()
            == self@.height by {
            assert(self@.tiles[i] == self.tiles@[i]@);
        }
        true
    }

    /// Number of columns.
    pub fn x(&self) -> (width: u32)
        ensures
            width == self.x,
    {
        self.x
    }

    /// Number of rows.
    pub fn y(&self) -> (height: u32)
        ensures
            height == self.y,
    {
        self.y
    }

    /// The tile at column `x`, row `y`; nothing when that is off the board.
    pub fn tile(&self, x: usize, y: usize) -> (found: Option<&Tile>)
        requires
            self.wf(),
        ensures
            found.is_some() == self@.on_board(x as int, y as int),
            found matches Some(t) ==> *t == self@.at(x as int, y as int) && t.pos == (Position {
                x: x as i32,
                y: y as i32,
            }),
            match found {
                Some(t) => self@.spec_tile(x as int, y as int) == Some(*t),
                None => self@.spec_tile(x as int, y as int).is_none(),
            },
    {
        if x < self.tiles.len() && y < self.y as usize {
            Some(&self.tiles[x][y])
        } else {
            None
        }
    }

    /// The tile at a position; nothing when that is off the board.
    pub fn tile_at(&self, p: Position) -> (found: Option<&Tile>)
        requires
            self.wf(),
        ensures
            found.is_some() == self@.holds(p),
            found matches Some(t) ==> *t == self@.at(p.x as int, p.y as int) && t.pos == p,
    {
        if p.x < 0 || p.y < 0 {
            None
        } else {
            self.tile(p.x as usize, p.y as usize)
        }
    }

    /// Appends the tile at column `a`, row `b` if it is on the board.
    fn push_if_on_board<'a>(&'a self, out: &mut Vec<&'a Tile>, a: i128, b: i128)
        requires
            self.wf(),
        ensures
            final(out)@.len() == old(out)@.len() + self@.spec_if_on_board(a as int, b as int).len(),
            forall|i: int| 0 <= i < old(out)@.len() ==> final(out)@[i] == old(out)@[i],
            self@.on_board(a as int, b as int) ==> *final(out)@[old(out)@.len() as int] == self@.at(
                a as int,
                b as int,
            ),
    {
        if 0 <= a && a < self.x as i128 && 0 <= b && b < self.y as i128 {
            out.push(&self.tiles[a as usize][b as usize]);
        }
    }

    /// The tiles that touch column `x`, row `y` by a side or a corner: up to
    /// eight, fewer at the edges, none of them the tile itself.
    pub fn adjacent_tiles(&self, x: usize, y: usize) -> (near: Vec<&Tile>)
        requires
            self.wf(),
        ensures
            near@.len() == self@.spec_adjacent(x as int, y as int).len(),
            forall|i: int|
                0 <= i < near@.len() ==> {
                    let at = #[trigger] self@.spec_adjacent(x as int, y as int)[i];
                    &&& self@.on_board(at.0, at.1)
                    &&& *near@[i] == self@.at(at.0, at.1)
                    &&& near@[i].pos == (Position { x: at.0 as i32, y: at.1 as i32 })
                },
    {
        let mut near: Vec<&Tile> = Vec::with_capacity(8);
        let a: i128 = x as i128;
        let b: i128 = y as i128;
                self.push_if_on_board(&mut near, a - 1, b - 1);
        self.push_if_on_board(&mut near, a - 1, b);
        self.push_if_on_board(&mut near, a - 1, b + 1);
        self.push_if_on_board(&mut near, a, b - 1);
        self.push_if_on_board(&mut near, a, b + 1);
        self.push_if_on_board(&mut near, a + 1, b - 1);
        self.push_if_on_board(&mut near, a + 1, b);
        self.push_if_on_board(&mut near, a + 1, b + 1);
        near
    }
}

/// Appending one candidate square keeps the list free of repetitions and
/// adds that square exactly when it is on the board.
proof fn lemma_append_candidate(board: Grid, prev: Seq<(int, int)>, a: int, b: int)
    requires
        prev.no_duplicates(),
        !prev.contains((a, b)),
    ensures
        (prev + board.spec_if_on_board(a, b)).no_duplicates(),
        (prev + board.spec_if_on_board(a, b)).len() <= prev.len() + 1,
        forall|p: (int, int)|
            #[trigger] (prev + board.spec_if_on_board(a, b)).contains(p) <==> prev.contains(p) || (p
                == (a, b) && board.on_board(a, b)),
{
    let next = prev + board.spec_if_on_board(a, b);
    assert forall|p: (int, int)| #[trigger] next.contains(p) <==> prev.contains(p) || (p == (a, b)
        && board.on_board(a, b)) by {
        if next.contains(p) {
            let i = choose|i: int| 0 <= i < next.len() && next[i] == p;
            if i < prev.len() {
                assert(prev[i] == p);
            }
        }
        if prev.contains(p) {
            let i = choose|i: int| 0 <= i < prev.len() && prev[i] == p;
            assert(next[i] == p);
        }
        if p == (a, b) && board.on_board(a, b) {
            assert(next[prev.len() as int] == p);
        }
    }
    assert forall|i: int, j: int| 0 <= i < next.len() && 0 <= j < next.len() && i != j implies next[i]
        != next[j] by {
        if i < prev.len() && j < prev.len() {
            assert(prev[i] != prev[j]);
        } else if i < prev.len() {
            assert(prev.contains(prev[i]));
        } else if j < prev.len() {
            assert(prev.contains(prev[j]));
        }
    }
}

/// The eight squares around a square, in the order in which they are listed.
pub open spec fn spec_candidate(a: int, b: int, k: int) -> (int, int) {
    if k == 0 {
        (a - 1, b - 1)
    } else if k == 1 {
        (a - 1, b)
    } else if k == 2 {
        (a - 1, b + 1)
    } else if k == 3 {
        (a, b - 1)
    } else if k == 4 {
        (a, b + 1)
    } else if k == 5 {
        (a + 1, b - 1)
    } else if k == 6 {
        (a + 1, b)
    } else {
        (a + 1, b + 1)
    }
}

/// Those of the first `k` squares around a square that lie on the board.
pub open spec fn spec_adjacent_prefix(board: Grid, a: int, b: int, k: int) -> Seq<(int, int)>
    decreases k,
{
    if k <= 0 {
        Seq::empty()
    } else {
        let c = spec_candidate(a, b, k - 1);
        spec_adjacent_prefix(board, a, b, k - 1) + board.spec_if_on_board(c.0, c.1)
    }
}

/// What the first `k` candidates contribute: each on-board candidate once.
proof fn lemma_adjacent_prefix(board: Grid, a: int, b: int, k: int)
    requires
        0 <= k <= 8,
    ensures
        spec_adjacent_prefix(board, a, b, k).no_duplicates(),
        spec_adjacent_prefix(board, a, b, k).len() <= k,
        forall|p: (int, int)|
            #[trigger] spec_adjacent_prefix(board, a, b, k).contains(p) <==> board.on_board(p.0, p.1)
                && exists|j: int| 0 <= j < k && p == #[trigger] spec_candidate(a, b, j),
    decreases k,
{
    if k > 0 {
        lemma_adjacent_prefix(board, a, b, k - 1);
        let prev = spec_adjacent_prefix(board, a, b, k - 1);
        let c = spec_candidate(a, b, k - 1);
        assert(!prev.contains(c)) by {
            if prev.contains(c) {
                let j = choose|j: int| 0 <= j < k - 1 && c == #[trigger] spec_candidate(a, b, j);
                assert(false);
            }
        }
        lemma_append_candidate(board, prev, c.0, c.1);
        let next = spec_adjacent_prefix(board, a, b, k);
        assert forall|p: (int, int)| #[trigger] next.contains(p) <==> board.on_board(p.0, p.1)
            && exists|j: int| 0 <= j < k && p == #[trigger] spec_candidate(a, b, j) by {
            if next.contains(p) {
                if prev.contains(p) {
                    let j = choose|j: int| 0 <= j < k - 1 && p == #[trigger] spec_candidate(a, b, j);
                    assert(0 <= j < k && p == spec_candidate(a, b, j));
                } else {
                    assert(p == spec_candidate(a, b, k - 1));
                }
            }
            if board.on_board(p.0, p.1) && exists|j: int|
                0 <= j < k && p == #[trigger] spec_candidate(a, b, j) {
                let j = choose|j: int| 0 <= j < k && p == #[trigger] spec_candidate(a, b, j);
                if j < k - 1 {
                    assert(prev.contains(p));
                }
            }
        }
    }
}

/// The neighbours of a square are exactly the squares of the board at
/// Chebyshev distance one from it, each listed once.
pub proof fn lemma_adjacent_is_chebyshev_ring(board: Grid, a: int, b: int, c: int, d: int)
    ensures
        board.spec_adjacent(a, b).contains((c, d)) <==> board.on_board(c, d)
            && crate::position::spec_chebyshev(a, b, c, d) == 1,
        board.spec_adjacent(a, b).no_duplicates(),
        board.spec_adjacent(a, b).len() <= 8,
        !board.spec_adjacent(a, b).contains((a, b)),
{
    lemma_adjacent_prefix(board, a, b, 8);
    assert(spec_adjacent_prefix(board, a, b, 8) =~= board.spec_adjacent(a, b)) by {
        reveal_with_fuel(spec_adjacent_prefix, 9);
    }
    let s = board.spec_adjacent(a, b);
    if crate::position::spec_chebyshev(a, b, c, d) == 1 {
        let j: int = if c == a - 1 {
            d - b + 1
        } else if c == a {
            if d == b - 1 {
                3
            } else {
                4
            }
        } else {
            d - b + 6
        };
        assert(0 <= j < 8 && (c, d) == spec_candidate(a, b, j));
    }
    if s.contains((c, d)) {
        let j = choose|j: int| 0 <= j < 8 && (c, d) == #[trigger] spec_candidate(a, b, j);
    }
    if s.contains((a, b)) {
        let j = choose|j: int| 0 <= j < 8 && (a, b) == #[trigger] spec_candidate(a, b, j);
    }
}

} // verus!
