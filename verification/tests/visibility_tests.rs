use project_calamity::features::{TileFeature, TileFeatures};
use project_calamity::gameboard::{Gameboard, Tile};
use project_calamity::position::Position;
use project_calamity::team::{PlayerTeam, TeamColour, TeamSet};
use project_calamity::terrain::{Geography, Terrain};
use project_calamity::units::{Archetype, Archetypes};

const BLUE: PlayerTeam = PlayerTeam(TeamColour::Blue);
const RED: PlayerTeam = PlayerTeam(TeamColour::Red);
const PURPLE: PlayerTeam = PlayerTeam(TeamColour::Purple);
const YELLOW: PlayerTeam = PlayerTeam(TeamColour::Yellow);

#[test]
fn team_set_insert_and_contains() {
    let mut set = TeamSet::empty();
    for team in [BLUE, RED, PURPLE, YELLOW] {
        assert!(!set.contains(team));
    }
    assert!(set.insert(PURPLE));
    assert!(!set.insert(PURPLE));
    assert!(set.contains(PURPLE));
    assert!(!set.contains(BLUE));
    assert!(set.insert(BLUE));
    assert!(set.insert(RED));
    assert!(set.insert(YELLOW));
    assert_eq!(set, TeamSet { blue: true, red: true, purple: true, yellow: true });
}

#[test]
fn reveal_is_idempotent_and_permanent() {
    let mut tile = Tile::new(Terrain::Jungle, Position { x: 2, y: 3 });
    assert!(tile.reveal_to(RED));
    let once = tile;
    assert!(!tile.reveal_to(RED));
    assert_eq!(tile, once);
    assert!(tile.reveal_to(BLUE));
    assert!(tile.visible_for.contains(RED));
    assert!(tile.visible_for.contains(BLUE));
    assert_eq!(tile.contents, Terrain::Jungle);
    assert_eq!(tile.pos(), Position { x: 2, y: 3 });
}

#[test]
fn reveal_tile_on_and_off_the_board() {
    let mut board = Gameboard::new(2, 2, Terrain::Grass);
    assert!(board.reveal_tile(1, 0, BLUE));
    assert!(!board.reveal_tile(1, 0, BLUE));
    assert!(!board.reveal_tile(2, 0, BLUE));
    assert!(board.tiles[1][0].visible_for.contains(BLUE));
    assert!(!board.tiles[0][0].visible_for.contains(BLUE));
    assert!(!board.tiles[1][0].visible_for.contains(RED));
    // a later reveal to another team takes nothing away
    board.reveal_around(Position { x: 0, y: 0 }, 5, RED);
    assert!(board.tiles[1][0].visible_for.contains(BLUE));
}

#[test]
fn reveal_around_uses_manhattan_distance() {
    let mut board = Gameboard::new(5, 5, Terrain::Grass);
    let news = board.reveal_around(Position { x: 2, y: 2 }, 1, BLUE);
    let seen: Vec<(i32, i32)> = news.iter().map(|t| (t.pos.x, t.pos.y)).collect();
    assert_eq!(seen, vec![(1, 2), (2, 1), (2, 2), (2, 3), (3, 2)]);
    for info in &news {
        assert_eq!(info.geography, Geography::Explored(Terrain::Grass));
    }
    for x in 0..5i32 {
        for y in 0..5i32 {
            let near = (x - 2).abs() + (y - 2).abs() <= 1;
            assert_eq!(board.tiles[x as usize][y as usize].visible_for.contains(BLUE), near);
            assert!(!board.tiles[x as usize][y as usize].visible_for.contains(RED));
        }
    }
}

#[test]
fn reveal_around_reports_only_new_tiles() {
    let mut board = Gameboard::new(5, 5, Terrain::Grass);
    board.reveal_around(Position { x: 2, y: 2 }, 1, BLUE);
    let again = board.reveal_around(Position { x: 2, y: 2 }, 1, BLUE);
    assert!(again.is_empty());
    let wider = board.reveal_around(Position { x: 2, y: 2 }, 2, BLUE);
    assert_eq!(wider.len(), 13 - 5);
    assert!(wider.iter().all(|t| (t.pos.x - 2).abs() + (t.pos.y - 2).abs() == 2));
    let nothing = board.reveal_around(Position { x: 2, y: 2 }, -1, RED);
    assert!(nothing.is_empty());
    assert!(!board.tiles[2][2].visible_for.contains(RED));
    let only_center = board.reveal_around(Position { x: 0, y: 0 }, 0, RED);
    assert_eq!(only_center.len(), 1);
    assert_eq!(only_center[0].pos, Position { x: 0, y: 0 });
}

#[test]
fn unseen_tile_is_reported_unexplored() {
    let mut tile = Tile::new(Terrain::Mountains, Position { x: 4, y: 1 });
    let hidden = tile.player_tile_info(BLUE);
    assert_eq!(hidden.pos, Position { x: 4, y: 1 });
    assert_eq!(hidden.geography, Geography::Unexplored);
    assert_eq!(hidden.visible_features, None);
    tile.reveal_to(BLUE);
    let shown = tile.player_tile_info(BLUE);
    assert_eq!(shown.pos, Position { x: 4, y: 1 });
    assert_eq!(shown.geography, Geography::Explored(Terrain::Mountains));
    assert_eq!(tile.player_tile_info(RED).geography, Geography::Unexplored);
}

#[test]
fn nest_is_shown_with_the_tile_and_resource_site_only_when_discovered() {
    let pos = Position { x: 1, y: 1 };
    let mut nest_tile = Tile::new(Terrain::Grass, pos);
    nest_tile.feature = Some(TileFeature::new(pos, TileFeatures::Nest(RED)));
    assert_eq!(nest_tile.player_tile_info(BLUE).visible_features, None);
    nest_tile.reveal_to(BLUE);
    assert_eq!(nest_tile.player_tile_info(BLUE).visible_features, nest_tile.feature);

    let mut site_tile = Tile::new(Terrain::Grass, pos);
    let mut site =
        TileFeature::new(pos, TileFeatures::CurrencySite(Archetype(Archetypes::Magic)));
    site_tile.feature = Some(site);
    site_tile.reveal_to(BLUE);
    assert_eq!(site_tile.player_tile_info(BLUE).visible_features, None);
    assert!(!site.shown_to(BLUE));
    assert!(site.reveal_to(BLUE));
    assert!(!site.reveal_to(BLUE));
    assert!(site.shown_to(BLUE));
    assert!(!site.shown_to(RED));
    site_tile.feature = Some(site);
    assert_eq!(site_tile.player_tile_info(BLUE).visible_features, Some(site));
    // discovered by red, but red has not seen the tile
    let mut for_red = site;
    for_red.reveal_to(RED);
    site_tile.feature = Some(for_red);
    assert_eq!(site_tile.player_tile_info(RED).visible_features, None);
    assert_eq!(site_tile.player_tile_info(RED).geography, Geography::Unexplored);
}

#[test]
fn reveal_all_shows_every_tile_and_feature() {
    let mut board = Gameboard::new(3, 2, Terrain::Savanna);
    let pos = Position { x: 2, y: 1 };
    board.tiles[2][1].feature =
        Some(TileFeature::new(pos, TileFeatures::CurrencySite(Archetype(Archetypes::Science))));
    board.reveal_tile(0, 0, RED);
    board.reveal_all(BLUE);
    for column in &board.tiles {
        for tile in column {
            assert!(tile.visible_for.contains(BLUE));
            assert_eq!(tile.player_tile_info(BLUE).geography, Geography::Explored(Terrain::Savanna));
        }
    }
    assert!(board.tiles[0][0].visible_for.contains(RED));
    assert!(!board.tiles[1][0].visible_for.contains(RED));
    assert!(board.tiles[2][1].player_tile_info(BLUE).visible_features.is_some());
    assert!(board.tiles[2][1].player_tile_info(RED).visible_features.is_none());
}
