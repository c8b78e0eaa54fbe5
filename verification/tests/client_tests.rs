use project_calamity::actions::{UnitAction, UnitActions};
use project_calamity::client::ClientWorld;
use project_calamity::features::TileFeatures;
use project_calamity::gameboard::Gameboard;
use project_calamity::position::Position;
use project_calamity::schema::{ClientMessages, Player, PlayerTileInfo, ServerMessages};
use project_calamity::selection::{select_unit, Icon, Icons, SelectedUnit};
use project_calamity::team::{PlayerTeam, TeamColour};
use project_calamity::terrain::{Geography, Terrain};
use project_calamity::units::{
    Archetype, Archetypes, Movement, TurnExecuteStage, TurnExecuteStages, Unit, UnitID,
};

const BLUE: PlayerTeam = PlayerTeam(TeamColour::Blue);
const RED: PlayerTeam = PlayerTeam(TeamColour::Red);

fn me() -> Player {
    Player { username: "ann".to_string(), id: 42 }
}

fn info(x: i32, y: i32, geography: Geography) -> PlayerTileInfo {
    PlayerTileInfo { pos: Position { x, y }, geography, visible_features: None }
}

#[test]
fn snapshot_replaces_the_picture() {
    let mut world = ClientWorld::new();
    world.units.push(Unit::starting(Position { x: 9, y: 9 }, RED));
    let snapshot = ServerMessages::CompleteGameStatePacket {
        tiles: vec![info(0, 0, Geography::Unexplored), info(0, 1, Geography::Explored(Terrain::Grass))],
        units: vec![Unit::starting(Position { x: 0, y: 1 }, BLUE)],
        players: vec![me()],
        width: 1,
        height: 2,
    };
    assert!(world.handle_server_message(&me(), snapshot).is_none());
    assert_eq!(world.tiles.len(), 2);
    assert_eq!(world.units, vec![Unit::starting(Position { x: 0, y: 1 }, BLUE)]);
    assert_eq!(world.players.len(), 1);
    assert_eq!((world.width, world.height), (1, 2));
}

#[test]
fn revealed_tile_replaces_what_was_known() {
    let mut world = ClientWorld::new();
    world.tiles = vec![info(0, 0, Geography::Unexplored), info(0, 1, Geography::Unexplored)];
    let tile = info(0, 1, Geography::Explored(Terrain::Forest));
    world.handle_server_message(&me(), ServerMessages::PlayerTileInfoPacket { tile });
    assert_eq!(world.tiles, vec![info(0, 0, Geography::Unexplored), tile]);
    let fresh = info(5, 5, Geography::Explored(Terrain::Water));
    world.handle_server_message(&me(), ServerMessages::PlayerTileInfoPacket { tile: fresh });
    assert_eq!(world.tiles, vec![info(0, 0, Geography::Unexplored), tile, fresh]);
}

#[test]
fn unit_messages_update_the_units() {
    let mut world = ClientWorld::new();
    let a = Unit::starting(Position { x: 0, y: 0 }, BLUE);
    let b = Unit::starting(Position { x: 1, y: 0 }, RED);
    world.handle_server_message(&me(), ServerMessages::UnitAddPacket { unit: a });
    world.handle_server_message(&me(), ServerMessages::UnitAddPacket { unit: b });
    assert_eq!(world.units, vec![a, b]);
    let mut moved = a;
    moved.pos = Position { x: 0, y: 1 };
    world.handle_server_message(
        &me(),
        ServerMessages::UnitModifyPacket { prev_pos: a.pos, unit: moved },
    );
    assert_eq!(world.units, vec![b, moved]);
    world.handle_server_message(&me(), ServerMessages::UnitRemovePacket { pos: b.pos });
    assert_eq!(world.units, vec![moved]);
    world.handle_server_message(
        &me(),
        ServerMessages::UnitRemovePacket { pos: Position { x: 7, y: 7 } },
    );
    assert_eq!(world.units, vec![moved]);
}

#[test]
fn identity_request_is_answered() {
    let mut world = ClientWorld::new();
    match world.handle_server_message(&me(), ServerMessages::PlayerInfoRequestPacket) {
        Some(ClientMessages::ConnectionPacket { player }) => {
            assert_eq!(player.username, "ann");
            assert_eq!(player.id, 42);
        }
        _ => panic!("expected to say who one is"),
    }
    let quiet = [
        ServerMessages::TestPacket { message: "x".to_string() },
        ServerMessages::ChatMessagePacket { player: me(), contents: "hi".to_string() },
        ServerMessages::PlayerInfo { player: me() },
        ServerMessages::DisconnectionPacket { message: "bye".to_string() },
    ];
    for message in quiet {
        assert!(world.handle_server_message(&me(), message).is_none());
    }
    assert!(world.tiles.is_empty() && world.units.is_empty());
}

#[test]
fn click_selects_then_plans_a_move() {
    let board = Gameboard::new(3, 3, Terrain::Grass);
    let mut unit = Unit::starting(Position { x: 0, y: 0 }, BLUE);
    unit.movement = Movement(1);
    unit.turn_execute_stage = TurnExecuteStage(TurnExecuteStages::AfterTurn);
    let units = vec![unit, Unit::starting(Position { x: 2, y: 2 }, RED)];
    let mut selected = None;
    let mut actions: Vec<UnitAction> = Vec::new();

    // a click on an empty tile selects nothing
    let icons = select_unit(&board, &units, &mut selected, &mut actions, Position { x: 1, y: 2 });
    assert!(icons.is_empty());
    assert_eq!(selected, None);

    let icons = select_unit(&board, &units, &mut selected, &mut actions, Position { x: 0, y: 0 });
    assert_eq!(selected, Some(SelectedUnit(Position { x: 0, y: 0 })));
    assert_eq!(
        icons,
        vec![
            Icon { icon: Icons::Selector, pos: Position { x: 0, y: 0 } },
            Icon { icon: Icons::Circle, pos: Position { x: 0, y: 0 } },
            Icon { icon: Icons::Circle, pos: Position { x: 0, y: 1 } },
            Icon { icon: Icons::Circle, pos: Position { x: 1, y: 0 } },
            Icon { icon: Icons::Circle, pos: Position { x: 1, y: 1 } },
        ]
    );

    // out of reach: the selection stays and nothing is planned
    let icons = select_unit(&board, &units, &mut selected, &mut actions, Position { x: 2, y: 0 });
    assert!(icons.is_empty());
    assert_eq!(selected, Some(SelectedUnit(Position { x: 0, y: 0 })));
    assert!(actions.is_empty());

    let icons = select_unit(&board, &units, &mut selected, &mut actions, Position { x: 1, y: 1 });
    assert!(icons.is_empty());
    assert_eq!(selected, None);
    let planned = UnitAction {
        action_type: UnitActions::Move,
        turn_stage: TurnExecuteStage(TurnExecuteStages::AfterTurn),
        curr_pos: Position { x: 0, y: 0 },
        action_pos: Position { x: 1, y: 1 },
    };
    assert_eq!(actions, vec![planned]);

    // planning again from the same tile replaces the plan
    select_unit(&board, &units, &mut selected, &mut actions, Position { x: 0, y: 0 });
    select_unit(&board, &units, &mut selected, &mut actions, Position { x: 0, y: 1 });
    assert_eq!(actions.len(), 1);
    assert_eq!(actions[0].action_pos, Position { x: 0, y: 1 });
}

#[test]
fn texture_indices() {
    for icon in [Icons::Selector, Icons::Circle, Icons::Cross] {
        assert_eq!(Icons::from_texture_index(icon.texture_index()), icon);
    }
    assert_eq!(Icons::Selector.texture_index(), 0);
    assert_eq!(Icons::Circle.texture_index(), 1);
    assert_eq!(Icons::Cross.texture_index(), 2);
    assert_eq!(Icons::from_texture_index(9), Icons::Selector);
    assert_eq!(UnitID::ScienceGenericTest.texture_index(), 0);
    assert_eq!(UnitID::MagicGenericTest.texture_index(), 1);
    assert_eq!(UnitID::from_texture_index(1), UnitID::MagicGenericTest);
    assert_eq!(UnitID::from_texture_index(5), UnitID::ScienceGenericTest);
    assert_eq!(TileFeatures::CurrencySite(Archetype(Archetypes::Magic)).texture_index(), 0);
    assert_eq!(TileFeatures::CurrencySite(Archetype(Archetypes::Science)).texture_index(), 1);
    assert_eq!(TileFeatures::Nest(RED).texture_index(), 3);
    assert_eq!(TileFeatures::Nest(BLUE).texture_index(), 4);
    assert_eq!(TileFeatures::CurrencySite(Archetype(Archetypes::Unaligned)).texture_index(), 4);
}

#[test]
fn known_board_paints_explored_terrain_over_grass() {
    let mut world = ClientWorld::new();
    assert!(world.known_board().is_none());
    world.width = 2;
    world.height = 3;
    world.tiles = vec![
        info(0, 0, Geography::Explored(Terrain::Water)),
        info(1, 2, Geography::Unexplored),
        info(1, 1, Geography::Explored(Terrain::Forest)),
        info(1, 1, Geography::Explored(Terrain::Mountains)),
        info(5, 5, Geography::Explored(Terrain::Desert)),
        info(-1, 0, Geography::Explored(Terrain::Desert)),
    ];
    let board = world.known_board().unwrap();
    assert!(board.is_well_formed());
    assert_eq!((board.x(), board.y()), (2, 3));
    assert_eq!(board.tiles[0][0].contents, Terrain::Water);
    assert_eq!(board.tiles[1][1].contents, Terrain::Mountains);
    assert_eq!(board.tiles[1][2].contents, Terrain::Grass);
    assert_eq!(board.tiles[0][1].contents, Terrain::Grass);
    assert_eq!(board.tiles[0][2].pos, Position { x: 0, y: 2 });
    world.width = 0;
    assert!(world.known_board().is_none());
    world.width = u32::MAX;
    assert!(world.known_board().is_none());
}
