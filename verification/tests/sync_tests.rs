use project_calamity::gameboard::Gameboard;
use project_calamity::position::Position;
use project_calamity::schema::{Player, ServerMessages};
use project_calamity::state::GameState;
use project_calamity::team::{PlayerTeam, TeamColour};
use project_calamity::terrain::{Geography, Terrain};
use project_calamity::units::Unit;

const BLUE: PlayerTeam = PlayerTeam(TeamColour::Blue);
const RED: PlayerTeam = PlayerTeam(TeamColour::Red);

fn player(name: &str, id: u128) -> Player {
    Player { username: name.to_string(), id }
}

fn sample_state() -> GameState {
    let mut board = Gameboard::new(3, 2, Terrain::Forest);
    board.tiles[1][1].contents = Terrain::Water;
    board.reveal_tile(0, 0, BLUE);
    board.reveal_tile(1, 1, BLUE);
    board.reveal_tile(2, 0, RED);
    GameState::new(
        board,
        vec![
            Unit::starting(Position { x: 0, y: 0 }, BLUE),
            Unit::starting(Position { x: 2, y: 0 }, RED),
            Unit::starting(Position { x: 1, y: 1 }, RED),
            Unit::starting(Position { x: 7, y: 7 }, RED),
        ],
    )
}

#[test]
fn snapshot_never_tells_terrain_of_unseen_tiles() {
    let state = sample_state();
    match state.complete_game_state(BLUE, vec![player("ann", 1), player("bob", 2)]) {
        ServerMessages::CompleteGameStatePacket { tiles, units, players, width, height } => {
            assert_eq!((width, height), (3, 2));
            assert_eq!(tiles.len(), 6);
            let told: Vec<((i32, i32), Geography)> =
                tiles.iter().map(|t| ((t.pos.x, t.pos.y), t.geography)).collect();
            assert_eq!(
                told,
                vec![
                    ((0, 0), Geography::Explored(Terrain::Forest)),
                    ((0, 1), Geography::Unexplored),
                    ((1, 0), Geography::Unexplored),
                    ((1, 1), Geography::Explored(Terrain::Water)),
                    ((2, 0), Geography::Unexplored),
                    ((2, 1), Geography::Unexplored),
                ]
            );
            for info in &tiles {
                let tile = &state.board.tiles[info.pos.x as usize][info.pos.y as usize];
                if !tile.visible_for.contains(BLUE) {
                    assert_eq!(info.geography, Geography::Unexplored);
                    assert_eq!(info.visible_features, None);
                }
            }
            assert_eq!(units, vec![state.units[0], state.units[2]]);
            assert_eq!(players.len(), 2);
            assert_eq!(players[0].username, "ann");
            assert_eq!(players[1].id, 2);
        }
        _ => panic!("expected a full snapshot"),
    }
}

#[test]
fn snapshot_differs_by_team() {
    let state = sample_state();
    match state.complete_game_state(RED, Vec::new()) {
        ServerMessages::CompleteGameStatePacket { tiles, units, .. } => {
            let seen: Vec<(i32, i32)> = tiles
                .iter()
                .filter(|t| t.geography != Geography::Unexplored)
                .map(|t| (t.pos.x, t.pos.y))
                .collect();
            assert_eq!(seen, vec![(2, 0)]);
            assert_eq!(units, vec![state.units[1]]);
        }
        _ => panic!("expected a full snapshot"),
    }
    assert_eq!(state.visible_units(PlayerTeam(TeamColour::Yellow)), Vec::new());
    assert!(state
        .board
        .projection(PlayerTeam(TeamColour::Yellow))
        .iter()
        .all(|t| t.geography == Geography::Unexplored));
}

#[test]
fn debug_reveal_shows_the_whole_map() {
    let mut state = sample_state();
    match state.debug_reveal(RED, vec![player("bob", 2)]) {
        ServerMessages::CompleteGameStatePacket { tiles, units, players, .. } => {
            assert!(tiles.iter().all(|t| t.geography != Geography::Unexplored));
            assert_eq!(tiles[3].geography, Geography::Explored(Terrain::Water));
            assert_eq!(units, vec![state.units[0], state.units[1], state.units[2]]);
            assert_eq!(players.len(), 1);
        }
        _ => panic!("expected a full snapshot"),
    }
    assert!(state.board.tiles[0][0].visible_for.contains(BLUE));
    assert!(!state.board.tiles[0][1].visible_for.contains(BLUE));
    assert!(state.board.tiles[0][1].visible_for.contains(RED));
}
