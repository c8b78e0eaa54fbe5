//! The client's picture of the game, as the server's messages paint it.

use vstd::prelude::*;
use crate::gameboard::Gameboard;
use crate::gameboard::Grid;
use crate::gameboard::MAX_SIDE;
use crate::gameboard::Tile;
use crate::position::Position;
use crate::team::TeamSet;
use crate::terrain::Geography;
use crate::terrain::Terrain;
use crate::schema::ClientMessages;
use crate::schema::Player;
use crate::schema::PlayerTileInfo;
use crate::schema::ServerMessages;
use crate::units::Unit;

verus! {

/// What a client knows of the game.
#[derive(Clone, Debug)]
pub struct ClientWorld {
    pub tiles: Vec<PlayerTileInfo>,
    pub units: Vec<Unit>,
    pub players: Vec<Player>,
    pub width: u32,
    pub height: u32,
}

/// What a client knows of the game, as a mathematical value.
pub struct ClientPicture {
    pub tiles: Seq<PlayerTileInfo>,
    pub units: Seq<Unit>,
    pub players: Seq<Player>,
    pub width: u32,
    pub height: u32,
}

impl View for ClientWorld {
    type V = ClientPicture;

    open spec fn view(&self) -> ClientPicture {
        ClientPicture {
            tiles: self.tiles@,
            units: self.units@,
            players: self.players@,
            width: self.width,
            height: self.height,
        }
    }
}

/// Those of the first `n` units that do not stand at `pos`, in order.
pub open spec fn spec_units_elsewhere(units: Seq<Unit>, pos: Position, n: int) -> Seq<Unit>
    decreases n,
{
    if n <= 0 {
        Seq::empty()
    } else {
        let rest = spec_units_elsewhere(units, pos, n - 1);
        if units[n - 1].pos == pos {
            rest
        } else {
            rest.push(units[n - 1])
        }
    }
}

/// The place, from the `k`-th on, of the first tile known at `pos`.
pub open spec fn spec_tile_place(tiles: Seq<PlayerTileInfo>, pos: Position, k: int) -> Option<int>
    decreases tiles.len() - k,
{
    if k < 0 || k >= tiles.len() {
        None
    } else if tiles[k].pos == pos {
        Some(k)
    } else {
        spec_tile_place(tiles, pos, k + 1)
    }
}

/// The tiles after the client has been told of one: what was known of the
/// tile at that position is replaced; a tile not known before is added.
pub open spec fn spec_with_tile(tiles: Seq<PlayerTileInfo>, tile: PlayerTileInfo) -> Seq<
    PlayerTileInfo,
> {
    match spec_tile_place(tiles, tile.pos, 0) {
        Some(k) => tiles.update(k, tile),
        None => tiles.push(tile),
    }
}

/// The picture after a message of the server.  A full snapshot replaces the
/// picture.  A tile replaces what was known at its position.  A unit that
/// moved takes the place of whatever stood where it came from; a unit that
/// left is removed from where it stood; a unit that appeared is added.
/// Every other message leaves the picture as it is.
pub open spec fn spec_after_message(picture: ClientPicture, message: ServerMessages) -> ClientPicture {
    match message {
        ServerMessages::CompleteGameStatePacket { tiles, units, players, width, height } => {
            ClientPicture { tiles: tiles@, units: units@, players: players@, width, height }
        },
        ServerMessages::PlayerTileInfoPacket { tile } => ClientPicture {
            tiles: spec_with_tile(picture.tiles, tile),
            ..picture
        },
        ServerMessages::UnitModifyPacket { prev_pos, unit } => ClientPicture {
            units: spec_units_elsewhere(picture.units, prev_pos, picture.units.len() as int).push(
                unit,
            ),
            ..picture
        },
        ServerMessages::UnitRemovePacket { pos } => ClientPicture {
            units: spec_units_elsewhere(picture.units, pos, picture.units.len() as int),
            ..picture
        },
        ServerMessages::UnitAddPacket { unit } => ClientPicture {
            units: picture.units.push(unit),
            ..picture
        },
        _ => picture,
    }
}

/// The units that do not stand at `pos`, in order.
fn units_elsewhere(units: &Vec<Unit>, pos: Position) -> (rest: Vec<Unit>)
    ensures
        rest@ == spec_units_elsewhere(units@, pos, units@.len() as int),
{
    let mut rest: Vec<Unit> = Vec::new();
    let mut k: usize = 0;
    while k < units.len()
        invariant
            k <= units@.len(),
            rest@ == spec_units_elsewhere(units@, pos, k as int),
        decreases units@.len() - k,
    {
        if units[k].pos != pos {
            rest.push(units[k]);
        }
        k = k + 1;
    }
    rest
}

impl ClientWorld {
    /// A picture of nothing.
    pub fn new() -> (world: ClientWorld)
        ensures
            world@.tiles.len() == 0,
            world@.units.len() == 0,
            world@.players.len() == 0,
            world.width == 0,
            world.height == 0,
    {
        ClientWorld { tiles: Vec::new(), units: Vec::new(), players: Vec::new(), width: 0, height: 0 }
    }

    /// Takes in what the server says of one tile.
    pub fn learn_tile(&mut self, tile: PlayerTileInfo)
        ensures
            final(self)@ == (ClientPicture {
                tiles: spec_with_tile(old(self)@.tiles, tile),
                ..old(self)@
            }),
    {
        let mut k: usize = 0;
        while k < self.tiles.len()
            invariant
                *self == *old(self),
                k <= self.tiles@.len(),
                spec_tile_place(self.tiles@, tile.pos, k as int) == spec_tile_place(
                    self.tiles@,
                    tile.pos,
                    0,
                ),
            decreases self.tiles@.len() - k,
        {
            if self.tiles[k].pos == tile.pos {
                self.tiles[k] = tile;
                return ;
            }
            k = k + 1;
        }
        self.tiles.push(tile);
    }

    /// Takes in one message of the server, and says what is to be answered:
    /// to the request to say who one is, who one is; to anything else, nothing.
    pub fn handle_server_message(&mut self, me: &Player, message: ServerMessages) -> (reply: Option<
        ClientMessages,
    >)
        ensures
            final(self)@ == spec_after_message(old(self)@, message),
            match message {
                ServerMessages::PlayerInfoRequestPacket => reply matches Some(
                    ClientMessages::ConnectionPacket { player },
                ) && player == *me,
                _ => reply.is_none(),
            },
    {
        match message {
            ServerMessages::CompleteGameStatePacket { tiles, units, players, width, height } => {
                self.tiles = tiles;
                self.units = units;
                self.players = players;
                self.width = width;
                self.height = height;
                None
            },
            ServerMessages::PlayerTileInfoPacket { tile } => {
                self.learn_tile(tile);
                None
            },
            ServerMessages::UnitModifyPacket { prev_pos, unit } => {
                let mut units = units_elsewhere(&self.units, prev_pos);
                units.push(unit);
                self.units = units;
                None
            },
            ServerMessages::UnitRemovePacket { pos } => {
                self.units = units_elsewhere(&self.units, pos);
                None
            },
            ServerMessages::UnitAddPacket { unit } => {
                self.units.push(unit);
                None
            },
            ServerMessages::PlayerInfoRequestPacket => Some(
                ClientMessages::ConnectionPacket { player: me.duplicate() },
            ),
            ServerMessages::TestPacket { message: _ } => None,
            ServerMessages::ChatMessagePacket { player: _, contents: _ } => None,
            ServerMessages::PlayerInfo { player: _ } => None,
            ServerMessages::DisconnectionPacket { message: _ } => None,
        }
    }
}

/// A board of one terrain that nobody has seen.
pub open spec fn spec_plain(width: int, height: int, fill: Terrain) -> Grid {
    Grid {
        width,
        height,
        tiles: Seq::new(
            width as nat,
            |a: int|
                Seq::new(
                    height as nat,
                    |b: int|
                        Tile {
                            contents: fill,
                            feature: None,
                            visible_for: TeamSet {
                                blue: false,
                                red: false,
                                purple: false,
                                yellow: false,
                            },
                            pos: Position { x: a as i32, y: b as i32 },
                        },
                ),
        ),
    }
}

/// The board with the terrain of the first `n` tiles of a picture painted
/// on it: a tile that the client has explored and that lies on the board
/// takes its terrain; the others are left as they are.
pub open spec fn spec_painted(board: Grid, tiles: Seq<PlayerTileInfo>, n: int) -> Grid
    decreases n,
{
    if n <= 0 {
        board
    } else {
        let before = spec_painted(board, tiles, n - 1);
        let info = tiles[n - 1];
        match info.geography {
            Geography::Explored(terrain) => if before.holds(info.pos) {
                before.with_tile(
                    info.pos.x as int,
                    info.pos.y as int,
                    Tile { contents: terrain, ..before.at(info.pos.x as int, info.pos.y as int) },
                )
            } else {
                before
            },
            Geography::Unexplored => before,
        }
    }
}

/// Changing the terrain of one tile keeps a board well formed.
proof fn lemma_repaint_keeps_wf(board: Grid, a: int, b: int, terrain: Terrain)
    requires
        board.wf(),
        board.on_board(a, b),
    ensures
        board.with_tile(a, b, Tile { contents: terrain, ..board.at(a, b) }).wf(),
{
    let next = board.with_tile(a, b, Tile { contents: terrain, ..board.at(a, b) });
    assert(board.tiles[a].len() == board.height);
    assert forall|i: int| 0 <= i < next.width implies (#[trigger] next.tiles[i]).len()
        == next.height by {
        assert(board.tiles[i].len() == board.height);
    }
    assert forall|i: int, j: int| 0 <= i < next.width && 0 <= j < next.height implies {
        &&& (#[trigger] next.tiles[i][j]).pos == (Position { x: i as i32, y: j as i32 })
        &&& next.tiles[i][j].wf()
    } by {
        assert(board.tiles[i].len() == board.height);
        assert(board.tiles[i][j].wf());
    }
}

impl ClientWorld {
    /// The board as far as the client knows it, for finding out where its
    /// units can go: the terrain it has explored, and grass where it has
    /// not.  None while the client has not been told the size of the board.
    pub fn known_board(&self) -> (known: Option<Gameboard>)
        ensures
            known.is_some() == (0 < self.width <= MAX_SIDE && 0 < self.height <= MAX_SIDE),
            known matches Some(board) ==> board.wf() && board@ == spec_painted(
                spec_plain(self.width as int, self.height as int, Terrain::Grass),
                self.tiles@,
                self.tiles@.len() as int,
            ),
    {
        if self.width == 0 || self.height == 0 || self.width > MAX_SIDE || self.height > MAX_SIDE {
            return None;
        }
        let mut board = Gameboard::new(self.width, self.height, Terrain::Grass);
        let ghost plain = spec_plain(self.width as int, self.height as int, Terrain::Grass);
        proof {
            assert forall|a: int| 0 <= a < plain.width implies #[trigger] board@.tiles[a]
                =~= plain.tiles[a] by {
                assert(board@.tiles[a].len() == board@.height);
                assert forall|b: int| 0 <= b < plain.height implies board@.tiles[a][b]
                    == plain.tiles[a][b] by {
                    assert(board@.at(a, b) == plain.tiles[a][b]);
                }
            }
            assert(board@.tiles =~= plain.tiles);
        }
        let mut k: usize = 0;
        while k < self.tiles.len()
            invariant
                k <= self.tiles@.len(),
                board.wf(),
                board@ == spec_painted(plain, self.tiles@, k as int),
            decreases self.tiles@.len() - k,
        {
            let info = self.tiles[k];
            let ghost before = board@;
            match info.geography {
                Geography::Explored(terrain) => {
                    if info.pos.x >= 0 && info.pos.y >= 0 && (info.pos.x as u32) < board.x && (
                    info.pos.y as u32) < board.y {
                        let x = info.pos.x as usize;
                        let y = info.pos.y as usize;
                        let mut tile: Tile = board.tiles[x][y];
                        tile.contents = terrain;
                        board.tiles[x][y] = tile;
                        proof {
                            lemma_repaint_keeps_wf(before, x as int, y as int, terrain);
                            assert(board@.tiles =~~= before.with_tile(
                                x as int,
                                y as int,
                                Tile { contents: terrain, ..before.at(x as int, y as int) },
                            ).tiles);
                        }
                    }
                },
                Geography::Unexplored => {},
            }
            k = k + 1;
        }
        Some(board)
    }
}

} // verus!
