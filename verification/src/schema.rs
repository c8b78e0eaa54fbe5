//! The messages that cross the wire, and the values they are built from.

use vstd::prelude::*;
use crate::actions::UnitAction;
use crate::features::TileFeature;
use crate::position::Position;
use crate::team::PlayerTeam;
use crate::terrain::Geography;
use crate::units::Unit;

verus! {

/// What one team is told about one tile.
#[derive(Clone, Copy, Debug, PartialEq, Eq, Structural, Hash)]
pub struct PlayerTileInfo {
    pub pos: Position,
    pub geography: Geography,
    pub visible_features: Option<TileFeature>,
}

/// A person at a client: a display name and a 128-bit identity.
#[derive(Clone, Debug)]
pub struct Player {
    pub username: String,
    pub id: u128,
}

/// Marks a connection that has already been asked who it is.
#[derive(Clone, Copy, Debug, PartialEq, Eq, Structural, Hash)]
pub struct SentPlayerInfoRequestPacket(pub u64);

/// Everything the server sends.
#[derive(Clone, Debug)]
pub enum ServerMessages {
    TestPacket { message: String },
    CompleteGameStatePacket {
        tiles: Vec<PlayerTileInfo>,
        units: Vec<Unit>,
        players: Vec<Player>,
        width: u32,
        height: u32,
    },
    PlayerTileInfoPacket { tile: PlayerTileInfo },
    UnitModifyPacket { prev_pos: Position, unit: Unit },
    UnitRemovePacket { pos: Position },
    UnitAddPacket { unit: Unit },
    ChatMessagePacket { player: Player, contents: String },
    PlayerInfo { player: Player },
    PlayerInfoRequestPacket,
    DisconnectionPacket { message: String },
}

/// A message for the clients of one team.
#[derive(Clone, Debug)]
pub struct Outbound {
    pub team: PlayerTeam,
    pub message: ServerMessages,
}

/// Everything a client sends.
#[derive(Clone, Debug)]
pub enum ClientMessages {
    ChatMessagePacket { player: Player, contents: String },
    MoveActionPacket { unit_action: Vec<UnitAction> },
    ConnectionPacket { player: Player },
    DisconnectionPacket { player: Player },
}

} // verus!
