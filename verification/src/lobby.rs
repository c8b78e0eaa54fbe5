//! Who is connected: connections, the players behind them, and their teams.

use vstd::prelude::*;
use crate::queue::PlayerMoves;
use crate::schema::ClientMessages;
use crate::schema::Player;
use crate::schema::SentPlayerInfoRequestPacket;
use crate::schema::ServerMessages;
use crate::state::GameState;
use crate::sync::spec_projection;
use crate::sync::spec_visible_units;
use crate::team::PlayerTeam;
use crate::team::TeamColour;

verus! {

/// Whether the server still gathers players or runs the game.
#[derive(Clone, Copy, Debug, PartialEq, Eq, Structural, Hash)]
pub enum ServerState {
    Lobby,
    Game,
}

impl Default for ServerState {
    fn default() -> (state: ServerState)
        ensures
            state == ServerState::Lobby,
    {
        ServerState::Lobby
    }
}

/// The identity of the player behind each connection.
///
/// The entries live in a hash map of `bevy::utils`, which Verus does not
/// read; what it holds is named by `clients_contents`.
#[verifier::external_body]
pub struct ClientIDMap {
    map: bevy::utils::HashMap<u64, u128>,
}

/// The identities a `ClientIDMap` holds, by connection.
pub uninterp spec fn clients_contents(clients: ClientIDMap) -> Map<u64, u128>;

/// The map in which no connection has an identity.
pub open spec fn spec_no_clients() -> Map<u64, u128> {
    Map::empty()
}

/// `HashMap::default` of hashbrown: a map that holds nothing.
#[verifier::external_body]
fn clients_default() -> (made: ClientIDMap)
    ensures
        clients_contents(made) == spec_no_clients(),
{
    ClientIDMap { map: bevy::utils::HashMap::default() }
}

/// `HashMap::len` of hashbrown: the number of keys held.
#[verifier::external_body]
fn clients_len(clients: &ClientIDMap) -> (n: usize)
    ensures
        n == clients_contents(*clients).dom().len(),
{
    clients.map.len()
}

/// `HashMap::get` of hashbrown: the value stored under `key`, if there is one.
#[verifier::external_body]
fn clients_get(clients: &ClientIDMap, key: u64) -> (id: Option<u128>)
    ensures
        id.is_some() == clients_contents(*clients).dom().contains(key),
        id matches Some(v) ==> v == clients_contents(*clients)[key],
{
    clients.map.get(&key).copied()
}

/// `HashMap::insert` of hashbrown: afterwards `key` maps to `id`, and every
/// other key to what it mapped to before.
#[verifier::external_body]
fn clients_insert(clients: &mut ClientIDMap, key: u64, id: u128)
    ensures
        clients_contents(*final(clients)) == clients_contents(*old(clients)).insert(key, id),
{
    clients.map.insert(key, id);
}

/// `HashMap::iter` of hashbrown: every entry once, in an order that is not
/// told.
#[verifier::external_body]
fn clients_entries(clients: &ClientIDMap) -> (entries: Vec<(u64, u128)>)
    ensures
        forall|i: int|
            0 <= i < entries@.len() ==> clients_contents(*clients).dom().contains(
                (#[trigger] entries@[i]).0,
            ) && clients_contents(*clients)[entries@[i].0] == entries@[i].1,
        forall|key: u64|
            clients_contents(*clients).dom().contains(key) ==> exists|i: int|
                0 <= i < entries@.len() && (#[trigger] entries@[i]).0 == key,
        forall|i: int, j: int|
            0 <= i < j < entries@.len() ==> (#[trigger] entries@[i]).0 != (#[trigger] entries@[j]).0,
{
    clients.map.iter().map(|(key, id)| (*key, *id)).collect()
}

impl View for ClientIDMap {
    type V = Map<u64, u128>;

    open spec fn view(&self) -> Map<u64, u128> {
        clients_contents(*self)
    }
}

/// Whether some connection has the identity `id`.
pub open spec fn spec_connected(clients: Map<u64, u128>, id: u128) -> bool {
    exists|key: u64| clients.dom().contains(key) && #[trigger] clients[key] == id
}

impl ClientIDMap {
    /// A map without connections.
    pub fn new() -> (clients: ClientIDMap)
        ensures
            clients@ == spec_no_clients(),
    {
        clients_default()
    }

    /// Number of connections with an identity.
    pub fn len(&self) -> (n: usize)
        ensures
            n == self@.dom().len(),
    {
        clients_len(self)
    }

    /// The identity behind a connection.
    pub fn get(&self, client_id: u64) -> (id: Option<u128>)
        ensures
            id.is_some() == self@.dom().contains(client_id),
            id matches Some(v) ==> v == self@[client_id],
    {
        clients_get(self, client_id)
    }

    /// Records the identity behind a connection.
    pub fn insert(&mut self, client_id: u64, id: u128)
        ensures
            final(self)@ == old(self)@.insert(client_id, id),
    {
        clients_insert(self, client_id, id)
    }

    /// A connection with the identity `id`, if there is one.
    pub fn connection_of(&self, id: u128) -> (found: Option<u64>)
        ensures
            found.is_some() == spec_connected(self@, id),
            found matches Some(key) ==> self@.dom().contains(key) && self@[key] == id,
    {
        let entries = clients_entries(self);
        let mut i: usize = 0;
        while i < entries.len()
            invariant
                i <= entries@.len(),
                forall|k: int|
                    0 <= k < entries@.len() ==> self@.dom().contains((#[trigger] entries@[k]).0)
                        && self@[entries@[k].0] == entries@[k].1,
                forall|k: int| 0 <= k < i ==> (#[trigger] entries@[k]).1 != id,
            decreases entries@.len() - i,
        {
            if entries[i].1 == id {
                assert(self@.dom().contains(entries@[i as int].0) && self@[entries@[i as int].0] == id);
                return Some(entries[i].0);
            }
            i = i + 1;
        }
        proof {
            if spec_connected(self@, id) {
                let key = choose|key: u64| self@.dom().contains(key) && #[trigger] self@[key] == id;
                let k = choose|k: int| 0 <= k < entries@.len() && (#[trigger] entries@[k]).0 == key;
                assert(entries@[k].1 == id);
            }
        }
        None
    }

    /// The connections that have an identity, in no particular order, each once.
    pub fn connections(&self) -> (ids: Vec<u64>)
        ensures
            forall|i: int| 0 <= i < ids@.len() ==> self@.dom().contains(#[trigger] ids@[i]),
            forall|key: u64| self@.dom().contains(key) ==> ids@.contains(key),
            ids@.no_duplicates(),
    {
        let entries = clients_entries(self);
        let mut ids: Vec<u64> = Vec::new();
        let mut i: usize = 0;
        while i < entries.len()
            invariant
                i <= entries@.len(),
                ids@.len() == i,
                forall|k: int| 0 <= k < i ==> #[trigger] ids@[k] == entries@[k].0,
            decreases entries@.len() - i,
        {
            ids.push(entries[i].0);
            i = i + 1;
        }
        proof {
            assert forall|key: u64| self@.dom().contains(key) implies ids@.contains(key) by {
                let k = choose|k: int| 0 <= k < entries@.len() && (#[trigger] entries@[k]).0 == key;
                assert(ids@[k] == key);
            }
            assert forall|a: int, b: int| 0 <= a < ids@.len() && 0 <= b < ids@.len() && a != b implies ids@[a]
                != ids@[b] by {
                if a < b {
                    assert(entries@[a].0 != entries@[b].0);
                } else {
                    assert(entries@[b].0 != entries@[a].0);
                }
            }
        }
        ids
    }
}

impl Default for ClientIDMap {
    fn default() -> (clients: ClientIDMap)
        ensures
            clients@ == spec_no_clients(),
    {
        ClientIDMap::new()
    }
}

impl Player {
    /// A player with the same name and identity.
    pub fn duplicate(&self) -> (copy: Player)
        ensures
            copy == *self,
    {
        Player { username: self.username.clone(), id: self.id }
    }
}

/// The players of the game and their teams, in the order in which they joined.
#[derive(Debug)]
pub struct ServerGameManager {
    pub players: Vec<(Player, PlayerTeam)>,
}

/// The team of the first player, from the `k`-th on, with identity `id`.
pub open spec fn spec_team_of(players: Seq<(Player, PlayerTeam)>, id: u128, k: int) -> Option<
    PlayerTeam,
>
    decreases players.len() - k,
{
    if k < 0 || k >= players.len() {
        None
    } else if players[k].0.id == id {
        Some(players[k].1)
    } else {
        spec_team_of(players, id, k + 1)
    }
}

/// The identity of the first player, from the `k`-th on, of team `team`.
pub open spec fn spec_player_of(players: Seq<(Player, PlayerTeam)>, team: PlayerTeam, k: int) -> Option<
    u128,
>
    decreases players.len() - k,
{
    if k < 0 || k >= players.len() {
        None
    } else if players[k].1 == team {
        Some(players[k].0.id)
    } else {
        spec_player_of(players, team, k + 1)
    }
}

/// The team of the player behind a connection.
pub open spec fn spec_team_of_client(
    players: Seq<(Player, PlayerTeam)>,
    clients: Map<u64, u128>,
    client_id: u64,
) -> Option<PlayerTeam> {
    if clients.dom().contains(client_id) {
        spec_team_of(players, clients[client_id], 0)
    } else {
        None
    }
}

/// What the server says to one who joins under an identity that is taken.
pub open spec fn spec_taken_notice() -> Seq<char> {
    "Attempted to join, but was already connected"@
}

impl ServerGameManager {
    /// A game without players.
    pub fn new() -> (manager: ServerGameManager)
        ensures
            manager.players@.len() == 0,
    {
        ServerGameManager { players: Vec::new() }
    }

    /// The team of the player with identity `id`.
    pub fn team_of(&self, id: u128) -> (team: Option<PlayerTeam>)
        ensures
            team == spec_team_of(self.players@, id, 0),
    {
        let mut k: usize = 0;
        while k < self.players.len()
            invariant
                k <= self.players@.len(),
                spec_team_of(self.players@, id, k as int) == spec_team_of(self.players@, id, 0),
            decreases self.players@.len() - k,
        {
            if self.players[k].0.id == id {
                return Some(self.players[k].1);
            }
            k = k + 1;
        }
        None
    }

    /// The team of the player behind a connection; none for a connection
    /// that has not said who it is.
    pub fn team_of_client(&self, clients: &ClientIDMap, client_id: u64) -> (team: Option<PlayerTeam>)
        ensures
            team == spec_team_of_client(self.players@, clients@, client_id),
    {
        match clients.get(client_id) {
            Some(id) => self.team_of(id),
            None => None,
        }
    }

    /// A connection of the first player of `team`; none when the team has no
    /// player or the player no connection.
    pub fn client_id(&self, team: &PlayerTeam, clients: &ClientIDMap) -> (found: Option<u64>)
        ensures
            match spec_player_of(self.players@, *team, 0) {
                Some(id) => found.is_some() == spec_connected(clients@, id) && (found matches Some(
                    key,
                ) ==> clients@.dom().contains(key) && clients@[key] == id),
                None => found.is_none(),
            },
    {
        let mut k: usize = 0;
        while k < self.players.len()
            invariant
                k <= self.players@.len(),
                spec_player_of(self.players@, *team, k as int) == spec_player_of(
                    self.players@,
                    *team,
                    0,
                ),
            decreases self.players@.len() - k,
        {
            if self.players[k].1 == *team {
                return clients.connection_of(self.players[k].0.id);
            }
            k = k + 1;
        }
        None
    }

    /// Takes a player who says who they are on a connection.  A player whose
    /// identity no connection has yet joins the game, under the colour that
    /// the number of connections so far selects, and nothing is answered.
    /// One whose identity is taken is told so and nothing changes.
    pub fn connect(&mut self, clients: &mut ClientIDMap, client_id: u64, player: Player) -> (reply:
        Option<ServerMessages>)
        ensures
            spec_connected(old(clients)@, player.id) ==> {
                &&& final(self).players@ == old(self).players@
                &&& final(clients)@ == old(clients)@
                &&& reply matches Some(ServerMessages::DisconnectionPacket { message })
                &&& message@ == spec_taken_notice()
            },
            !spec_connected(old(clients)@, player.id) ==> {
                &&& final(self).players@ == old(self).players@.push(
                    (
                        player,
                        PlayerTeam(TeamColour::spec_from_int(old(clients)@.dom().len() as usize as int)),
                    ),
                )
                &&& final(clients)@ == old(clients)@.insert(client_id, player.id)
                &&& reply.is_none()
            },
    {
        match clients.connection_of(player.id) {
            Some(_) => Some(
                ServerMessages::DisconnectionPacket {
                    message: "Attempted to join, but was already connected".to_owned(),
                },
            ),
            None => {
                let joined = clients.len();
                let id = player.id;
                self.players.push((player, PlayerTeam(TeamColour::from_int(&joined))));
                clients.insert(client_id, id);
                None
            },
        }
    }

    /// The names and identities of the players, in the order in which they joined.
    pub fn roster(&self) -> (players: Vec<Player>)
        ensures
            players@.len() == self.players@.len(),
            forall|k: int| 0 <= k < players@.len() ==> #[trigger] players@[k] == self.players@[k].0,
    {
        let mut players: Vec<Player> = Vec::new();
        let mut k: usize = 0;
        while k < self.players.len()
            invariant
                k <= self.players@.len(),
                players@.len() == k,
                forall|j: int| 0 <= j < k ==> #[trigger] players@[j] == self.players@[j].0,
            decreases self.players@.len() - k,
        {
            players.push(self.players[k].0.duplicate());
            k = k + 1;
        }
        players
    }

    /// For each player in turn, the team and whether it has submitted its
    /// batch for the turn in progress.
    pub fn turn_status(&self, moves: &PlayerMoves) -> (status: Vec<(PlayerTeam, bool)>)
        ensures
            status@.len() == self.players@.len(),
            forall|k: int|
                0 <= k < status@.len() ==> #[trigger] status@[k] == (
                    self.players@[k].1,
                    moves.has_batch(self.players@[k].1),
                ),
    {
        let mut status: Vec<(PlayerTeam, bool)> = Vec::new();
        let mut k: usize = 0;
        while k < self.players.len()
            invariant
                k <= self.players@.len(),
                status@.len() == k,
                forall|j: int|
                    0 <= j < k ==> #[trigger] status@[j] == (
                        self.players@[j].1,
                        moves.has_batch(self.players@[j].1),
                    ),
            decreases self.players@.len() - k,
        {
            let team = self.players[k].1;
            status.push((team, moves.submitted(team)));
            k = k + 1;
        }
        status
    }

    /// Takes the batch of actions that arrived on a connection.  The batch
    /// of a connection whose player has a team is submitted for that team,
    /// and is dropped if the team has submitted already; that of any other
    /// connection is ignored.  Says whether the batch was accepted.
    pub fn take_batch(
        &self,
        clients: &ClientIDMap,
        moves: &mut PlayerMoves,
        client_id: u64,
        batch: Vec<crate::actions::UnitAction>,
    ) -> (accepted: bool)
        ensures
            match spec_team_of_client(self.players@, clients@, client_id) {
                Some(team) => {
                    &&& accepted == !old(moves).has_batch(team)
                    &&& accepted ==> final(moves)@ == old(moves)@.insert(
                        team.spec_index() as u8,
                        batch@,
                    )
                    &&& !accepted ==> final(moves)@ == old(moves)@
                },
                None => !accepted && final(moves)@ == old(moves)@,
            },
    {
        match self.team_of_client(clients, client_id) {
            Some(team) => moves.submit(team, batch),
            None => false,
        }
    }

    /// Handles one message of a client.  A batch of actions is taken as
    /// `take_batch` says; one who joins is taken as `connect` says; chat and
    /// farewells change nothing.  Returns what is to be sent back on the
    /// connection, if anything.
    pub fn handle_client_message(
        &mut self,
        clients: &mut ClientIDMap,
        moves: &mut PlayerMoves,
        client_id: u64,
        message: ClientMessages,
    ) -> (reply: Option<ServerMessages>)
        ensures
            match message {
                ClientMessages::MoveActionPacket { unit_action } => {
                    &&& reply.is_none()
                    &&& final(self).players@ == old(self).players@
                    &&& final(clients)@ == old(clients)@
                    &&& match spec_team_of_client(old(self).players@, old(clients)@, client_id) {
                        Some(team) => final(moves)@ == (if old(moves).has_batch(team) {
                            old(moves)@
                        } else {
                            old(moves)@.insert(team.spec_index() as u8, unit_action@)
                        }),
                        None => final(moves)@ == old(moves)@,
                    }
                },
                ClientMessages::ConnectionPacket { player } => {
                    &&& final(moves)@ == old(moves)@
                    &&& if spec_connected(old(clients)@, player.id) {
                        &&& final(self).players@ == old(self).players@
                        &&& final(clients)@ == old(clients)@
                        &&& reply matches Some(ServerMessages::DisconnectionPacket { message: notice })
                        &&& notice@ == spec_taken_notice()
                    } else {
                        &&& final(self).players@ == old(self).players@.push(
                            (
                                player,
                                PlayerTeam(
                                    TeamColour::spec_from_int(
                                        old(clients)@.dom().len() as usize as int,
                                    ),
                                ),
                            ),
                        )
                        &&& final(clients)@ == old(clients)@.insert(client_id, player.id)
                        &&& reply.is_none()
                    }
                },
                _ => {
                    &&& reply.is_none()
                    &&& final(self).players@ == old(self).players@
                    &&& final(clients)@ == old(clients)@
                    &&& final(moves)@ == old(moves)@
                },
            },
    {
        match message {
            ClientMessages::MoveActionPacket { unit_action } => {
                self.take_batch(clients, moves, client_id, unit_action);
                None
            },
            ClientMessages::ConnectionPacket { player } => self.connect(clients, client_id, player),
            ClientMessages::ChatMessagePacket { player: _, contents: _ } => None,
            ClientMessages::DisconnectionPacket { player: _ } => None,
        }
    }

    /// The full snapshot that the player behind a connection is owed; none
    /// for a connection whose player has no team.
    pub fn snapshot_for(&self, state: &GameState, clients: &ClientIDMap, client_id: u64) -> (message:
        Option<ServerMessages>)
        requires
            state.wf(),
        ensures
            message.is_some() == spec_team_of_client(self.players@, clients@, client_id).is_some(),
            message matches Some(ServerMessages::CompleteGameStatePacket { tiles, units, players, width, height })
                ==> {
                let team = spec_team_of_client(self.players@, clients@, client_id).unwrap();
                &&& tiles@ == spec_projection(state@.board.tiles, team, state@.board.width)
                &&& units@ == spec_visible_units(state@, team, state.units@.len() as int)
                &&& players@.len() == self.players@.len()
                &&& forall|k: int| 0 <= k < players@.len() ==> #[trigger] players@[k] == self.players@[k].0
                &&& width == state.board.x
                &&& height == state.board.y
            },
            message matches Some(m) ==> m is CompleteGameStatePacket,
    {
        match self.team_of_client(clients, client_id) {
            Some(team) => Some(state.complete_game_state(team, self.roster())),
            None => None,
        }
    }

    /// The debug operation that shows a player the whole map, by identity.
    /// For a player who has a team and a connection, every tile and every
    /// feature becomes visible to the team, and the connection that is owed
    /// a fresh snapshot is returned.  For any other identity nothing happens.
    pub fn reveal_for(&self, state: &mut GameState, clients: &ClientIDMap, id: u128) -> (target:
        Option<u64>)
        requires
            old(state).wf(),
        ensures
            final(state).wf(),
            target.is_some() == (spec_team_of(self.players@, id, 0).is_some() && spec_connected(
                clients@,
                id,
            )),
            target matches Some(key) ==> clients@.dom().contains(key) && clients@[key] == id
                && final(state)@.board == old(state)@.board.spec_reveal_all(
                spec_team_of(self.players@, id, 0).unwrap(),
            ) && final(state)@.units == old(state)@.units,
            target.is_none() ==> final(state)@ == old(state)@,
            old(state)@.board.visibility_kept_by(final(state)@.board),
    {
        proof {
            crate::visibility::lemma_visibility_is_kept(
                state@.board,
                state@.board,
                state@.board,
                0,
                0,
                PlayerTeam(TeamColour::Blue),
            );
        }
        match self.team_of(id) {
            Some(team) => match clients.connection_of(id) {
                Some(key) => {
                    state.board.reveal_all(team);
                    Some(key)
                },
                None => None,
            },
            None => None,
        }
    }

    /// Starts the game once the lobby is full: in the lobby, with exactly
    /// `max_players` players, the server goes over to the game; otherwise
    /// nothing changes.  Says whether the game has just started.
    pub fn manage_lobby(&self, server_state: &mut ServerState, max_players: u32) -> (started: bool)
        ensures
            started == (*old(server_state) == ServerState::Lobby && self.players@.len()
                == max_players),
            *final(server_state) == (if started {
                ServerState::Game
            } else {
                *old(server_state)
            }),
    {
        if *server_state == ServerState::Lobby && self.players.len() == max_players as usize {
            *server_state = ServerState::Game;
            true
        } else {
            false
        }
    }
}

/// The connections that are owed a full snapshot: those that are asked for,
/// as they are listed; or, when none are listed, every connection that has
/// an identity, each once.
pub fn snapshot_targets(request: &Option<Vec<u64>>, clients: &ClientIDMap) -> (targets: Vec<u64>)
    ensures
        request matches Some(ids) ==> targets@ == ids@,
        request.is_none() ==> targets@.no_duplicates() && forall|key: u64|
            clients@.dom().contains(key) <==> #[trigger] targets@.contains(key),
{
    match request {
        Some(ids) => {
            let mut targets: Vec<u64> = Vec::new();
            let mut i: usize = 0;
            while i < ids.len()
                invariant
                    i <= ids@.len(),
                    targets@ == ids@.take(i as int),
                decreases ids@.len() - i,
            {
                targets.push(ids[i]);
                i = i + 1;
                assert(targets@ =~= ids@.take(i as int));
            }
            assert(ids@.take(i as int) =~= ids@);
            targets
        },
        None => {
            let targets = clients.connections();
            assert forall|key: u64| #[trigger] targets@.contains(key) implies clients@.dom().contains(
                key,
            ) by {
                let k = choose|k: int| 0 <= k < targets@.len() && targets@[k] == key;
                assert(clients@.dom().contains(targets@[k]));
            }
            targets
        },
    }
}

/// The connections that are to be asked who they are: in the lobby, those
/// that have no identity yet and have not been asked, each once; none while
/// the game runs.  Those asked are remembered.
pub fn requests_for_identity(
    server_state: ServerState,
    connected: &Vec<u64>,
    clients: &ClientIDMap,
    asked: &mut Vec<SentPlayerInfoRequestPacket>,
) -> (to_ask: Vec<u64>)
    ensures
        final(asked)@ == old(asked)@ + to_ask@.map_values(|c: u64| SentPlayerInfoRequestPacket(c)),
        server_state == ServerState::Game ==> to_ask@.len() == 0,
        forall|i: int|
            0 <= i < to_ask@.len() ==> connected@.contains(#[trigger] to_ask@[i])
                && !clients@.dom().contains(to_ask@[i]) && !old(asked)@.contains(
                SentPlayerInfoRequestPacket(to_ask@[i]),
            ),
        to_ask@.no_duplicates(),
        server_state == ServerState::Lobby ==> forall|i: int|
            0 <= i < connected@.len() && !clients@.dom().contains(#[trigger] connected@[i])
                ==> final(asked)@.contains(SentPlayerInfoRequestPacket(connected@[i])),
{
    let mut to_ask: Vec<u64> = Vec::new();
    if server_state != ServerState::Lobby {
        assert(asked@ =~= old(asked)@ + to_ask@.map_values(|c: u64| SentPlayerInfoRequestPacket(c)));
        return to_ask;
    }
    let mut i: usize = 0;
    while i < connected.len()
        invariant
            i <= connected@.len(),
            asked@ == old(asked)@ + to_ask@.map_values(|c: u64| SentPlayerInfoRequestPacket(c)),
            forall|k: int|
                0 <= k < to_ask@.len() ==> connected@.contains(#[trigger] to_ask@[k])
                    && !clients@.dom().contains(to_ask@[k]) && !old(asked)@.contains(
                    SentPlayerInfoRequestPacket(to_ask@[k]),
                ),
            to_ask@.no_duplicates(),
            forall|k: int|
                0 <= k < i && !clients@.dom().contains(#[trigger] connected@[k]) ==> asked@.contains(
                    SentPlayerInfoRequestPacket(connected@[k]),
                ),
        decreases connected@.len() - i,
    {
        let client_id = connected[i];
        if clients.get(client_id).is_none() && !was_asked(asked, client_id) {
            let ghost before = asked@;
            let ghost before_ask = to_ask@;
            proof {
                if to_ask@.contains(client_id) {
                    let k = choose|k: int| 0 <= k < to_ask@.len() && to_ask@[k] == client_id;
                    assert(asked@[old(asked)@.len() + k] == SentPlayerInfoRequestPacket(client_id));
                }
                if old(asked)@.contains(SentPlayerInfoRequestPacket(client_id)) {
                    let j = choose|j: int|
                        0 <= j < old(asked)@.len() && old(asked)@[j] == SentPlayerInfoRequestPacket(
                            client_id,
                        );
                    assert(asked@[j] == old(asked)@[j]);
                }
                assert(connected@[i as int] == client_id);
            }
            asked.push(SentPlayerInfoRequestPacket(client_id));
            to_ask.push(client_id);
            assert(asked@ =~= old(asked)@ + to_ask@.map_values(
                |c: u64| SentPlayerInfoRequestPacket(c),
            ));
            assert(connected@[i as int] == client_id);
            assert forall|k: int|
                0 <= k < i + 1 && !clients@.dom().contains(
                    #[trigger] connected@[k],
                ) implies asked@.contains(SentPlayerInfoRequestPacket(connected@[k])) by {
                if k < i {
                    let j = choose|j: int|
                        0 <= j < before.len() && before[j] == SentPlayerInfoRequestPacket(
                            connected@[k],
                        );
                    assert(asked@[j] == before[j]);
                } else {
                    assert(asked@[asked@.len() - 1] == SentPlayerInfoRequestPacket(client_id));
                }
            }
        }
        i = i + 1;
    }
    to_ask
}

/// Whether a connection has been asked who it is.
fn was_asked(asked: &Vec<SentPlayerInfoRequestPacket>, client_id: u64) -> (found: bool)
    ensures
        found == asked@.contains(SentPlayerInfoRequestPacket(client_id)),
{
    let mut k: usize = 0;
    while k < asked.len()
        invariant
            k <= asked@.len(),
            forall|j: int| 0 <= j < k ==> (#[trigger] asked@[j]).0 != client_id,
        decreases asked@.len() - k,
    {
        if asked[k].0 == client_id {
            assert(asked@[k as int] == SentPlayerInfoRequestPacket(client_id));
            return true;
        }
        k = k + 1;
    }
    false
}

} // verus!
