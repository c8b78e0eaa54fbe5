use project_calamity::actions::{UnitAction, UnitActions};
use project_calamity::clock::{check_turn_execute_readiness, TurnTimer, TURN_DURATION_MS};
use project_calamity::gameboard::Gameboard;
use project_calamity::lobby::{
    requests_for_identity, snapshot_targets, ClientIDMap, ServerGameManager, ServerState,
};
use project_calamity::position::Position;
use project_calamity::queue::PlayerMoves;
use project_calamity::schema::{
    ClientMessages, Player, SentPlayerInfoRequestPacket, ServerMessages,
};
use project_calamity::state::GameState;
use project_calamity::team::{PlayerTeam, TeamColour};
use project_calamity::terrain::{Geography, Terrain};
use project_calamity::units::{TurnExecuteStage, TurnExecuteStages, Unit};

const BLUE: PlayerTeam = PlayerTeam(TeamColour::Blue);
const RED: PlayerTeam = PlayerTeam(TeamColour::Red);
const PURPLE: PlayerTeam = PlayerTeam(TeamColour::Purple);
const YELLOW: PlayerTeam = PlayerTeam(TeamColour::Yellow);

fn player(name: &str, id: u128) -> Player {
    Player { username: name.to_string(), id }
}

fn a_move() -> UnitAction {
    UnitAction {
        action_type: UnitActions::Move,
        turn_stage: TurnExecuteStage(TurnExecuteStages::MidTurn),
        curr_pos: Position { x: 0, y: 0 },
        action_pos: Position { x: 1, y: 0 },
    }
}

fn two_players() -> (ServerGameManager, ClientIDMap) {
    let mut manager = ServerGameManager::new();
    let mut clients = ClientIDMap::new();
    assert!(manager.connect(&mut clients, 10, player("ann", 111)).is_none());
    assert!(manager.connect(&mut clients, 20, player("bob", 222)).is_none());
    (manager, clients)
}

#[test]
fn team_colours_follow_the_order_of_joining() {
    assert_eq!(TeamColour::from_int(&0), TeamColour::Blue);
    assert_eq!(TeamColour::from_int(&1), TeamColour::Red);
    assert_eq!(TeamColour::from_int(&2), TeamColour::Purple);
    assert_eq!(TeamColour::from_int(&3), TeamColour::Yellow);
    assert_eq!(TeamColour::from_int(&4), TeamColour::Blue);
    assert_eq!(TeamColour::from_int(&usize::MAX), TeamColour::Blue);
    for (i, team) in [BLUE, RED, PURPLE, YELLOW].into_iter().enumerate() {
        assert_eq!(team.index() as usize, i);
        assert_eq!(PlayerTeam::from_index(i as u8), team);
    }
    let mut manager = ServerGameManager::new();
    let mut clients = ClientIDMap::new();
    for (i, team) in [BLUE, RED, PURPLE, YELLOW].into_iter().enumerate() {
        let id = 100 + i as u128;
        assert!(manager.connect(&mut clients, i as u64, player("p", id)).is_none());
        assert_eq!(manager.team_of(id), Some(team));
    }
    assert_eq!(manager.players.len(), 4);
    assert_eq!(clients.len(), 4);
}

#[test]
fn joining_twice_is_refused() {
    let (mut manager, mut clients) = two_players();
    match manager.connect(&mut clients, 30, player("ann again", 111)) {
        Some(ServerMessages::DisconnectionPacket { message }) => {
            assert_eq!(message, "Attempted to join, but was already connected");
        }
        _ => panic!("expected to be turned away"),
    }
    assert_eq!(manager.players.len(), 2);
    assert_eq!(clients.len(), 2);
    assert_eq!(clients.get(30), None);
    assert_eq!(clients.get(10), Some(111));
    assert_eq!(clients.connection_of(222), Some(20));
    assert_eq!(clients.connection_of(333), None);
    let mut known = clients.connections();
    known.sort();
    assert_eq!(known, vec![10, 20]);
}

#[test]
fn client_of_a_team() {
    let (manager, clients) = two_players();
    assert_eq!(manager.client_id(&BLUE, &clients), Some(10));
    assert_eq!(manager.client_id(&RED, &clients), Some(20));
    assert_eq!(manager.client_id(&YELLOW, &clients), None);
    assert_eq!(manager.team_of_client(&clients, 10), Some(BLUE));
    assert_eq!(manager.team_of_client(&clients, 20), Some(RED));
    assert_eq!(manager.team_of_client(&clients, 99), None);
    assert_eq!(manager.team_of(999), None);
    let roster = manager.roster();
    assert_eq!(roster.len(), 2);
    assert_eq!(roster[0].username, "ann");
    assert_eq!(roster[1].id, 222);
}

#[test]
fn batches_arrive_once_per_team() {
    let (mut manager, mut clients) = two_players();
    let mut moves = PlayerMoves::new();
    let first = ClientMessages::MoveActionPacket { unit_action: vec![a_move()] };
    let second = ClientMessages::MoveActionPacket { unit_action: vec![a_move(), a_move()] };
    let stranger = ClientMessages::MoveActionPacket { unit_action: vec![a_move()] };
    assert!(manager.handle_client_message(&mut clients, &mut moves, 20, first).is_none());
    assert!(manager.handle_client_message(&mut clients, &mut moves, 20, second).is_none());
    assert!(manager.handle_client_message(&mut clients, &mut moves, 77, stranger).is_none());
    assert_eq!(moves.len(), 1);
    assert!(moves.submitted(RED));
    assert!(!moves.submitted(BLUE));
    assert_eq!(moves.queued_actions().len(), 1);
    assert_eq!(manager.turn_status(&moves), vec![(BLUE, false), (RED, true)]);
    assert!(!manager.take_batch(&clients, &mut moves, 20, vec![a_move()]));
    assert!(manager.take_batch(&clients, &mut moves, 10, Vec::new()));
    assert!(!manager.take_batch(&clients, &mut moves, 55, vec![a_move()]));
    assert_eq!(manager.turn_status(&moves), vec![(BLUE, true), (RED, true)]);
}

#[test]
fn chat_and_farewell_change_nothing() {
    let (mut manager, mut clients) = two_players();
    let mut moves = PlayerMoves::new();
    let chat = ClientMessages::ChatMessagePacket {
        player: player("ann", 111),
        contents: "hello".to_string(),
    };
    let bye = ClientMessages::DisconnectionPacket { player: player("ann", 111) };
    assert!(manager.handle_client_message(&mut clients, &mut moves, 10, chat).is_none());
    assert!(manager.handle_client_message(&mut clients, &mut moves, 10, bye).is_none());
    assert_eq!(manager.players.len(), 2);
    assert_eq!(clients.len(), 2);
    assert_eq!(moves.len(), 0);
    let join = ClientMessages::ConnectionPacket { player: player("cyd", 333) };
    assert!(manager.handle_client_message(&mut clients, &mut moves, 30, join).is_none());
    assert_eq!(manager.team_of_client(&clients, 30), Some(PURPLE));
}

#[test]
fn lobby_starts_the_game_when_full() {
    let (manager, _clients) = two_players();
    let mut state = ServerState::Lobby;
    assert!(!manager.manage_lobby(&mut state, 3));
    assert_eq!(state, ServerState::Lobby);
    assert!(manager.manage_lobby(&mut state, 2));
    assert_eq!(state, ServerState::Game);
    assert!(!manager.manage_lobby(&mut state, 2));
    assert_eq!(state, ServerState::Game);
}

#[test]
fn unknown_connections_are_asked_once() {
    let (_manager, clients) = two_players();
    let mut asked = vec![SentPlayerInfoRequestPacket(40)];
    let connected = vec![10, 30, 40, 50, 30];
    let to_ask = requests_for_identity(ServerState::Lobby, &connected, &clients, &mut asked);
    assert_eq!(to_ask, vec![30, 50]);
    assert_eq!(
        asked,
        vec![
            SentPlayerInfoRequestPacket(40),
            SentPlayerInfoRequestPacket(30),
            SentPlayerInfoRequestPacket(50),
        ]
    );
    let again = requests_for_identity(ServerState::Lobby, &connected, &clients, &mut asked);
    assert!(again.is_empty());
    let mut nobody = Vec::new();
    let in_game = requests_for_identity(ServerState::Game, &connected, &clients, &mut nobody);
    assert!(in_game.is_empty());
    assert!(nobody.is_empty());
}

#[test]
fn snapshot_for_a_connection() {
    let (manager, clients) = two_players();
    let mut board = Gameboard::new(2, 2, Terrain::Desert);
    board.reveal_tile(1, 1, RED);
    let state = GameState::new(board, vec![Unit::starting(Position { x: 1, y: 1 }, BLUE)]);
    assert!(manager.snapshot_for(&state, &clients, 99).is_none());
    match manager.snapshot_for(&state, &clients, 20) {
        Some(ServerMessages::CompleteGameStatePacket { tiles, units, players, width, height }) => {
            assert_eq!(tiles.len(), 4);
            assert_eq!(tiles[3].geography, Geography::Explored(Terrain::Desert));
            assert_eq!(tiles[0].geography, Geography::Unexplored);
            assert_eq!(units.len(), 1);
            assert_eq!(players.len(), 2);
            assert_eq!((width, height), (2, 2));
        }
        _ => panic!("expected a snapshot"),
    }
    match manager.snapshot_for(&state, &clients, 10) {
        Some(ServerMessages::CompleteGameStatePacket { tiles, units, .. }) => {
            assert!(tiles.iter().all(|t| t.geography == Geography::Unexplored));
            assert!(units.is_empty());
        }
        _ => panic!("expected a snapshot"),
    }
}

#[test]
fn timer_wraps_around() {
    let mut timer = TurnTimer::new();
    assert_eq!(timer.duration_ms, TURN_DURATION_MS);
    assert_eq!(TURN_DURATION_MS, 60_000);
    assert!(!timer.tick(59_999));
    assert_eq!(timer.elapsed_ms, 59_999);
    assert!(timer.tick(1));
    assert_eq!(timer.elapsed_ms, 0);
    assert!(timer.tick(150_000));
    assert_eq!(timer.elapsed_ms, 30_000);
    timer.reset();
    assert_eq!(timer.elapsed_ms, 0);
    assert!(timer.tick(u64::MAX));
    assert_eq!(timer.elapsed_ms, u64::MAX % 60_000);
    assert_eq!(TurnTimer::with_duration(0), None);
    assert_eq!(
        TurnTimer::with_duration(5),
        Some(TurnTimer { elapsed_ms: 0, duration_ms: 5 })
    );
}

#[test]
fn turn_is_ready_on_timeout_or_when_all_have_submitted() {
    let mut moves = PlayerMoves::new();
    let mut timer = TurnTimer::new();
    // in the lobby the clock stands still
    assert!(!check_turn_execute_readiness(ServerState::Lobby, &mut timer, 70_000, &moves, 2));
    assert_eq!(timer.elapsed_ms, 0);
    assert!(!check_turn_execute_readiness(ServerState::Game, &mut timer, 1_000, &moves, 2));
    assert_eq!(timer.elapsed_ms, 1_000);
    moves.submit(BLUE, vec![a_move()]);
    assert!(!check_turn_execute_readiness(ServerState::Game, &mut timer, 1_000, &moves, 2));
    assert_eq!(timer.elapsed_ms, 2_000);
    // timeout with a team missing
    assert!(check_turn_execute_readiness(ServerState::Game, &mut timer, 58_000, &moves, 2));
    assert_eq!(timer.elapsed_ms, 0);
    // all submitted: ready at once, and the clock starts anew
    timer.tick(10_000);
    moves.submit(RED, vec![a_move()]);
    assert!(check_turn_execute_readiness(ServerState::Game, &mut timer, 5, &moves, 2));
    assert_eq!(timer.elapsed_ms, 0);
}

#[test]
fn reveal_by_identity() {
    let (manager, clients) = two_players();
    let mut state = GameState::new(
        Gameboard::new(3, 2, Terrain::Forest),
        vec![Unit::starting(Position { x: 1, y: 1 }, BLUE)],
    );
    let units = state.units.clone();
    // nobody has this identity: nothing happens
    let tiles = state.board.tiles.clone();
    assert_eq!(manager.reveal_for(&mut state, &clients, 999), None);
    assert_eq!(state.board.tiles, tiles);
    assert_eq!(state.units, units);
    // bob plays red on connection 20
    assert_eq!(manager.reveal_for(&mut state, &clients, 222), Some(20));
    for column in &state.board.tiles {
        for tile in column {
            assert!(tile.visible_for.contains(RED));
            assert!(!tile.visible_for.contains(BLUE));
        }
    }
    assert_eq!(state.units, units);
    // a player of the game whose connection is not known is not served
    let mut manager = manager;
    manager.players.push((player("cyd", 333), PURPLE));
    let tiles = state.board.tiles.clone();
    assert_eq!(manager.reveal_for(&mut state, &clients, 333), None);
    assert_eq!(state.board.tiles, tiles);
}

#[test]
fn who_is_owed_a_snapshot() {
    let (_manager, clients) = two_players();
    assert_eq!(snapshot_targets(&Some(vec![20, 7, 20]), &clients), vec![20, 7, 20]);
    assert_eq!(snapshot_targets(&Some(Vec::new()), &clients), Vec::<u64>::new());
    let mut everyone = snapshot_targets(&None, &clients);
    everyone.sort();
    assert_eq!(everyone, vec![10, 20]);
    assert!(snapshot_targets(&None, &ClientIDMap::new()).is_empty());
}
