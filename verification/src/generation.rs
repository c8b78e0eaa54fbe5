//! The start of a game: nests, what each team sees at first, the features
//! strewn over the board, and the first units.
//!
//! Terrain is handed in.  Which tiles carry a resource site is left to
//! chance: one tile in forty a scrapyard, one in forty a library.

use vstd::prelude::*;
use rand::Rng;
use crate::features::TileFeature;
use crate::features::TileFeatures;
use crate::gameboard::Gameboard;
use crate::gameboard::Grid;
use crate::gameboard::MAX_SIDE;
use crate::gameboard::Tile;
use crate::gameboard::terrain_view;
use crate::position::Position;
use crate::state::GameState;
use crate::team::PlayerTeam;
use crate::team::TeamSet;
use crate::team::lemma_with_is_insert;
use crate::terrain::Terrain;
use crate::units::Archetype;
use crate::units::Archetypes;
use crate::units::Unit;

verus! {

/// The number of faces of the die that decides on a tile's feature.
pub const FEATURE_DIE: u32 = 40;

/// `Rng::gen_range` of rand on the thread's generator: some number from
/// zero up to, and not including, `bound`.
#[verifier::external_body]
fn random_below(bound: u32) -> (n: u32)
    requires
        bound > 0,
    ensures
        n < bound,
{
    rand::thread_rng().gen_range(0..bound)
}

impl Terrain {
    /// A sprite of the terrain's block of four in the tile atlas, picked by chance.
    pub fn to_atlas_index(&self) -> (index: u16)
        ensures
            self.spec_atlas_base() <= index < self.spec_atlas_base() + 4,
    {
        let variant = random_below(4);
        self.atlas_index_for(variant as u16)
    }
}

/// Where the nests of `n` teams lie on a board of `max_x` by `max_y` tiles:
/// one tile in from the corners.
pub open spec fn spec_nest_positions(max_x: u32, max_y: u32, n: u32) -> Seq<(u32, u32)> {
    if n == 2 {
        seq![(1u32, (max_y - 2) as u32), ((max_x - 2) as u32, 1u32)]
    } else if n == 3 {
        seq![
            (1u32, (max_y - 2) as u32),
            ((max_x - 2) as u32, (max_y - 2) as u32),
            (max_x / 2, 1u32),
        ]
    } else {
        seq![
            (1u32, 1u32),
            (1u32, (max_y - 2) as u32),
            ((max_x - 2) as u32, 1u32),
            ((max_x - 2) as u32, (max_y - 2) as u32),
        ]
    }
}

/// Where the nests of `n` teams lie on a board of `max_x` by `max_y` tiles.
pub fn calculate_nest_positions(max_x: u32, max_y: u32, n: u32) -> (nests: Vec<(u32, u32)>)
    requires
        max_x >= 2,
        max_y >= 2,
    ensures
        nests@ == spec_nest_positions(max_x, max_y, n),
        forall|i: int| 0 <= i < nests@.len() ==> (#[trigger] nests@[i]).0 < max_x && nests@[i].1 < max_y,
{
    let mut nests: Vec<(u32, u32)> = Vec::new();
    if n == 2 {
        nests.push((1, max_y - 2));
        nests.push((max_x - 2, 1));
    } else if n == 3 {
        nests.push((1, max_y - 2));
        nests.push((max_x - 2, max_y - 2));
        nests.push((max_x / 2, 1));
    } else {
        nests.push((1, 1));
        nests.push((1, max_y - 2));
        nests.push((max_x - 2, 1));
        nests.push((max_x - 2, max_y - 2));
    }
    assert(nests@ =~= spec_nest_positions(max_x, max_y, n));
    nests
}

/// Whether a tile touches a nest or is the nest's own tile.
pub open spec fn spec_beside(nest: (u32, u32), a: int, b: int) -> bool {
    -1 <= nest.0 - a <= 1 && -1 <= nest.1 - b <= 1
}

/// The teams, among the first `n`, whose nest a tile touches: they see the
/// tile from the start.
pub open spec fn spec_watchers(
    nests: Seq<(u32, u32)>,
    teams: Seq<PlayerTeam>,
    a: int,
    b: int,
    n: int,
) -> TeamSet
    decreases n,
{
    if n <= 0 {
        TeamSet { blue: false, red: false, purple: false, yellow: false }
    } else {
        let rest = spec_watchers(nests, teams, a, b, n - 1);
        if spec_beside(nests[n - 1], a, b) {
            rest.spec_with(teams[n - 1])
        } else {
            rest
        }
    }
}

/// The first team, from the `k`-th on, whose nest lies on a tile.
pub open spec fn spec_nest_owner(
    nests: Seq<(u32, u32)>,
    teams: Seq<PlayerTeam>,
    a: int,
    b: int,
    k: int,
) -> Option<PlayerTeam>
    decreases nests.len() - k,
{
    if k < 0 || k >= nests.len() {
        None
    } else if nests[k].0 == a && nests[k].1 == b {
        Some(teams[k])
    } else {
        spec_nest_owner(nests, teams, a, b, k + 1)
    }
}

/// The feature of a tile: the nest of the team whose nest lies there, known
/// to that team; on any other tile a scrapyard for a roll of zero and a
/// library for a roll of one, known to nobody; nothing for any other roll.
pub open spec fn spec_seeded_feature(
    nests: Seq<(u32, u32)>,
    teams: Seq<PlayerTeam>,
    a: int,
    b: int,
    roll: u32,
) -> Option<TileFeature> {
    let pos = Position { x: a as i32, y: b as i32 };
    let nobody = TeamSet { blue: false, red: false, purple: false, yellow: false };
    match spec_nest_owner(nests, teams, a, b, 0) {
        Some(team) => Some(
            TileFeature {
                pos,
                feature: TileFeatures::Nest(team),
                visible_to_players: nobody.spec_with(team),
            },
        ),
        None => if roll == 0 {
            Some(
                TileFeature {
                    pos,
                    feature: TileFeatures::CurrencySite(Archetype(Archetypes::Science)),
                    visible_to_players: nobody,
                },
            )
        } else if roll == 1 {
            Some(
                TileFeature {
                    pos,
                    feature: TileFeatures::CurrencySite(Archetype(Archetypes::Magic)),
                    visible_to_players: nobody,
                },
            )
        } else {
            None
        },
    }
}

/// A tile at the start of a game, for the roll that fell on it.
pub open spec fn spec_seeded_tile(
    contents: Terrain,
    nests: Seq<(u32, u32)>,
    teams: Seq<PlayerTeam>,
    a: int,
    b: int,
    roll: u32,
) -> Tile {
    Tile {
        contents,
        feature: spec_seeded_feature(nests, teams, a, b, roll),
        visible_for: spec_watchers(nests, teams, a, b, nests.len() as int),
        pos: Position { x: a as i32, y: b as i32 },
    }
}

/// The units at the start of a game: for each of the first `n` teams, in
/// turn, one below and one above its nest.
pub open spec fn spec_first_units(nests: Seq<(u32, u32)>, teams: Seq<PlayerTeam>, n: int) -> Seq<Unit>
    decreases n,
{
    if n <= 0 {
        Seq::empty()
    } else {
        let nest = nests[n - 1];
        spec_first_units(nests, teams, n - 1).push(
            Unit::spec_starting(
                Position { x: nest.0 as i32, y: (nest.1 - 1) as i32 },
                teams[n - 1],
            ),
        ).push(
            Unit::spec_starting(
                Position { x: nest.0 as i32, y: (nest.1 + 1) as i32 },
                teams[n - 1],
            ),
        )
    }
}

/// Whether a grid of terrain can be the land of a game for these teams: two
/// to four teams, at least two columns and two rows, no side longer than a
/// board can be, and every column as long as the first.
pub open spec fn spec_can_seed(terrain: Seq<Seq<Terrain>>, teams: Seq<PlayerTeam>) -> bool {
    &&& 2 <= teams.len() <= 4
    &&& 2 <= terrain.len() <= MAX_SIDE
    &&& 2 <= terrain[0].len() <= MAX_SIDE
    &&& forall|a: int| 0 <= a < terrain.len() ==> (#[trigger] terrain[a]).len() == terrain[0].len()
}

/// Whether a board is the start of a game on this terrain for these teams
/// under some rolls of the die: every tile is the seeded tile for its roll.
pub open spec fn spec_seeded_with(
    board: Grid,
    terrain: Seq<Seq<Terrain>>,
    teams: Seq<PlayerTeam>,
    rolls: Map<(int, int), u32>,
) -> bool {
    let nests = spec_nest_positions(board.width as u32, board.height as u32, teams.len() as u32);
    &&& board.width == terrain.len()
    &&& board.height == terrain[0].len()
    &&& forall|a: int, b: int|
        board.on_board(a, b) ==> rolls.dom().contains((a, b)) && rolls[(a, b)] < FEATURE_DIE
            && #[trigger] board.at(a, b) == spec_seeded_tile(
            terrain[a][b],
            nests,
            teams,
            a,
            b,
            rolls[(a, b)],
        )
}

/// The teams whose nest a tile touches.
fn watchers(nests: &Vec<(u32, u32)>, teams: &Vec<PlayerTeam>, x: u32, y: u32) -> (seen: TeamSet)
    requires
        nests@.len() == teams@.len(),
    ensures
        seen == spec_watchers(nests@, teams@, x as int, y as int, nests@.len() as int),
{
    let mut seen = TeamSet::empty();
    let mut i: usize = 0;
    while i < nests.len()
        invariant
            i <= nests@.len(),
            nests@.len() == teams@.len(),
            seen == spec_watchers(nests@, teams@, x as int, y as int, i as int),
        decreases nests@.len() - i,
    {
        let nest = nests[i];
        let dx: i64 = nest.0 as i64 - x as i64;
        let dy: i64 = nest.1 as i64 - y as i64;
        if -1 <= dx && dx <= 1 && -1 <= dy && dy <= 1 {
            seen.insert(teams[i]);
        }
        i = i + 1;
    }
    seen
}

/// The first team whose nest lies on a tile.
fn nest_owner(nests: &Vec<(u32, u32)>, teams: &Vec<PlayerTeam>, x: u32, y: u32) -> (owner: Option<
    PlayerTeam,
>)
    requires
        nests@.len() == teams@.len(),
    ensures
        owner == spec_nest_owner(nests@, teams@, x as int, y as int, 0),
{
    let mut k: usize = 0;
    while k < nests.len()
        invariant
            k <= nests@.len(),
            nests@.len() == teams@.len(),
            spec_nest_owner(nests@, teams@, x as int, y as int, k as int) == spec_nest_owner(
                nests@,
                teams@,
                x as int,
                y as int,
                0,
            ),
        decreases nests@.len() - k,
    {
        if nests[k].0 == x && nests[k].1 == y {
            return Some(teams[k]);
        }
        k = k + 1;
    }
    None
}

/// A tile at the start of a game, for the roll that fell on it.
pub fn seeded_tile(
    contents: Terrain,
    nests: &Vec<(u32, u32)>,
    teams: &Vec<PlayerTeam>,
    x: u32,
    y: u32,
    roll: u32,
) -> (tile: Tile)
    requires
        nests@.len() == teams@.len(),
        x <= MAX_SIDE,
        y <= MAX_SIDE,
    ensures
        tile == spec_seeded_tile(contents, nests@, teams@, x as int, y as int, roll),
        tile.wf(),
        tile.pos == (Position { x: x as i32, y: y as i32 }),
{
    let pos = Position { x: x as i32, y: y as i32 };
    let feature = match nest_owner(nests, teams, x, y) {
        Some(team) => {
            let mut nest = TileFeature::new(pos, TileFeatures::Nest(team));
            nest.reveal_to(team);
            Some(nest)
        },
        None => if roll == 0 {
            Some(TileFeature::new(pos, TileFeatures::CurrencySite(Archetype(Archetypes::Science))))
        } else if roll == 1 {
            Some(TileFeature::new(pos, TileFeatures::CurrencySite(Archetype(Archetypes::Magic))))
        } else {
            None
        },
    };
    Tile { contents, feature, visible_for: watchers(nests, teams, x, y), pos }
}

/// The units at the start of a game.
pub fn first_units(nests: &Vec<(u32, u32)>, teams: &Vec<PlayerTeam>) -> (units: Vec<Unit>)
    requires
        nests@.len() == teams@.len(),
        forall|i: int|
            0 <= i < nests@.len() ==> (#[trigger] nests@[i]).0 <= MAX_SIDE && nests@[i].1 < MAX_SIDE,
    ensures
        units@ == spec_first_units(nests@, teams@, nests@.len() as int),
{
    let mut units: Vec<Unit> = Vec::new();
    let mut i: usize = 0;
    while i < nests.len()
        invariant
            i <= nests@.len(),
            nests@.len() == teams@.len(),
            forall|k: int|
                0 <= k < nests@.len() ==> (#[trigger] nests@[k]).0 <= MAX_SIDE && nests@[k].1
                    < MAX_SIDE,
            units@ == spec_first_units(nests@, teams@, i as int),
        decreases nests@.len() - i,
    {
        let nest = nests[i];
        let x = nest.0 as i32;
        let y = nest.1 as i32;
        units.push(Unit::starting(Position { x, y: y - 1 }, teams[i]));
        units.push(Unit::starting(Position { x, y: y + 1 }, teams[i]));
        i = i + 1;
    }
    units
}

/// Whether a grid of terrain can be the land of a game for these teams.
pub fn can_seed(terrain: &Vec<Vec<Terrain>>, teams: &Vec<PlayerTeam>) -> (ok: bool)
    ensures
        ok == spec_can_seed(terrain_view(*terrain), teams@),
{
    if teams.len() < 2 || teams.len() > 4 {
        return false;
    }
    if terrain.len() < 2 || terrain.len() > MAX_SIDE as usize {
        return false;
    }
    assert(terrain_view(*terrain)[0] == terrain@[0]@);
    let height = terrain[0].len();
    if height < 2 || height > MAX_SIDE as usize {
        return false;
    }
    let mut a: usize = 0;
    while a < terrain.len()
        invariant
            a <= terrain@.len(),
            height == terrain@[0]@.len(),
            terrain@.len() >= 2,
            forall|i: int| 0 <= i < a ==> (#[trigger] terrain@[i])@.len() == height,
        decreases terrain@.len() - a,
    {
        if terrain[a].len() != height {
            assert(terrain_view(*terrain)[a as int].len() != terrain_view(*terrain)[0].len());
            return false;
        }
        a = a + 1;
    }
    assert forall|i: int| 0 <= i < terrain_view(*terrain).len() implies (#[trigger] terrain_view(
        *terrain,
    )[i]).len() == terrain_view(*terrain)[0].len() by {
        assert(terrain@[i]@.len() == height);
    }
    true
}

/// Sets up a game on the given terrain for the given teams: the nests one
/// tile in from the corners, each team seeing the tiles around its nest, a
/// die rolled for every tile to decide on its feature, and two units beside
/// each nest.  Nothing is set up for fewer than two or more than four teams,
/// or on terrain that is not a rectangle of at least two by two tiles.
pub fn generate_gameboard(terrain: &Vec<Vec<Terrain>>, teams: &Vec<PlayerTeam>) -> (made: Option<
    GameState,
>)
    ensures
        made.is_some() == spec_can_seed(terrain_view(*terrain), teams@),
        made matches Some(state) ==> {
            &&& state.wf()
            &&& exists|rolls: Map<(int, int), u32>|
                spec_seeded_with(state@.board, terrain_view(*terrain), teams@, rolls)
            &&& state.units@ == spec_first_units(
                spec_nest_positions(state.board.x, state.board.y, teams@.len() as u32),
                teams@,
                teams@.len() as int,
            )
        },
{
    if !can_seed(terrain, teams) {
        return None;
    }
    let ghost land = terrain_view(*terrain);
    assert(land[0] == terrain@[0]@);
    let width: u32 = terrain.len() as u32;
    let height: u32 = terrain[0].len() as u32;
    let nests = calculate_nest_positions(width, height, teams.len() as u32);
    let ghost mut rolls: Map<(int, int), u32> = Map::empty();
    let mut tiles: Vec<Vec<Tile>> = Vec::new();
    let mut x: u32 = 0;
    while x < width
        invariant
            x <= width,
            width == terrain@.len(),
            height == terrain@[0]@.len(),
            land == terrain_view(*terrain),
            spec_can_seed(land, teams@),
            nests@ == spec_nest_positions(width, height, teams@.len() as u32),
            nests@.len() == teams@.len(),
            tiles@.len() == x,
            forall|a: int| 0 <= a < x ==> (#[trigger] tiles@[a])@.len() == height,
            forall|a: int, b: int|
                0 <= a < x && 0 <= b < height ==> rolls.dom().contains((a, b)) && rolls[(a, b)]
                    < FEATURE_DIE && #[trigger] tiles@[a]@[b] == spec_seeded_tile(
                    land[a][b],
                    nests@,
                    teams@,
                    a,
                    b,
                    rolls[(a, b)],
                ),
        decreases width - x,
    {
        let mut column: Vec<Tile> = Vec::new();
        let mut y: u32 = 0;
        assert(land[x as int] == terrain@[x as int]@);
        assert(land[x as int].len() == land[0].len());
        while y < height
            invariant
                y <= height,
                x < width,
                width == terrain@.len(),
                height == terrain@[0]@.len(),
                height == terrain@[x as int]@.len(),
                land == terrain_view(*terrain),
                land[x as int] == terrain@[x as int]@,
                spec_can_seed(land, teams@),
                nests@.len() == teams@.len(),
                column@.len() == y,
                tiles@.len() == x,
                forall|a: int| 0 <= a < x ==> (#[trigger] tiles@[a])@.len() == height,
                forall|a: int, b: int|
                    0 <= a < x && 0 <= b < height ==> rolls.dom().contains((a, b)) && rolls[(a, b)]
                        < FEATURE_DIE && #[trigger] tiles@[a]@[b] == spec_seeded_tile(
                        land[a][b],
                        nests@,
                        teams@,
                        a,
                        b,
                        rolls[(a, b)],
                    ),
                forall|b: int|
                    0 <= b < y ==> rolls.dom().contains((x as int, b)) && rolls[(x as int, b)]
                        < FEATURE_DIE && #[trigger] column@[b] == spec_seeded_tile(
                        land[x as int][b],
                        nests@,
                        teams@,
                        x as int,
                        b,
                        rolls[(x as int, b)],
                    ),
            decreases height - y,
        {
            let roll = random_below(FEATURE_DIE);
            column.push(seeded_tile(terrain[x as usize][y as usize], &nests, teams, x, y, roll));
            proof {
                rolls = rolls.insert((x as int, y as int), roll);
            }
            y = y + 1;
        }
        tiles.push(column);
        x = x + 1;
    }
    let board = Gameboard { tiles, x: width, y: height };
    proof {
        assert forall|a: int, b: int| board@.on_board(a, b) implies rolls.dom().contains((a, b))
            && rolls[(a, b)] < FEATURE_DIE && #[trigger] board@.at(a, b) == spec_seeded_tile(
            land[a][b],
            nests@,
            teams@,
            a,
            b,
            rolls[(a, b)],
        ) by {
            assert(board@.at(a, b) == tiles@[a]@[b]);
        }
        assert(spec_seeded_with(board@, land, teams@, rolls));
        assert forall|i: int, j: int| 0 <= i < board@.width && 0 <= j < board@.height implies {
            &&& (#[trigger] board@.tiles[i][j]).pos == (Position { x: i as i32, y: j as i32 })
            &&& board@.tiles[i][j].wf()
        } by {
            assert(board@.at(i, j) == tiles@[i]@[j]);
            lemma_seeded_tile_wf(land[i][j], nests@, teams@, i, j, rolls[(i, j)]);
        }
        assert forall|i: int| 0 <= i < board@.width implies (#[trigger] board@.tiles[i]).len()
            == board@.height by {
            assert(tiles@[i]@.len() == height);
        }
    }
    let units = first_units(&nests, teams);
    let state = GameState { board, units };
    assert(state.wf());
    assert(spec_seeded_with(state@.board, terrain_view(*terrain), teams@, rolls));
    assert(state.units@ == spec_first_units(
        spec_nest_positions(state.board.x, state.board.y, teams@.len() as u32),
        teams@,
        teams@.len() as int,
    ));
    Some(state)
}

/// A seeded tile lies where it says and carries its feature on itself.
pub proof fn lemma_seeded_tile_wf(
    contents: Terrain,
    nests: Seq<(u32, u32)>,
    teams: Seq<PlayerTeam>,
    a: int,
    b: int,
    roll: u32,
)
    requires
        0 <= a <= MAX_SIDE,
        0 <= b <= MAX_SIDE,
    ensures
        spec_seeded_tile(contents, nests, teams, a, b, roll).wf(),
{
}

/// At the start of a game a team sees every tile that touches its nest, and
/// the nest's own tile.
pub proof fn lemma_nest_is_watched(
    nests: Seq<(u32, u32)>,
    teams: Seq<PlayerTeam>,
    a: int,
    b: int,
    n: int,
    i: int,
)
    requires
        0 <= i < n <= nests.len(),
        nests.len() == teams.len(),
        spec_beside(nests[i], a, b),
    ensures
        spec_watchers(nests, teams, a, b, n).has(teams[i]),
    decreases n,
{
    let rest = spec_watchers(nests, teams, a, b, n - 1);
    if i < n - 1 {
        lemma_nest_is_watched(nests, teams, a, b, n - 1, i);
        if spec_beside(nests[n - 1], a, b) {
            lemma_with_is_insert(rest, teams[n - 1]);
        }
    } else {
        lemma_with_is_insert(rest, teams[n - 1]);
    }
}

} // verus!
