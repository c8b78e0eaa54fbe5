use project_calamity::gameboard::{Gameboard, Tile};
use project_calamity::position::Position;
use project_calamity::team::{PlayerTeam, TeamColour, TeamSet};
use project_calamity::terrain::{Terrain, COST_SCALE};
use project_calamity::traversal::{movement_costs, reaches};
use project_calamity::units::{Movement, Unit};

const BLUE: PlayerTeam = PlayerTeam(TeamColour::Blue);

fn positions(tiles: &[&Tile]) -> Vec<(i32, i32)> {
    tiles.iter().map(|t| (t.pos.x, t.pos.y)).collect()
}

fn unit(x: i32, y: i32, movement: i32) -> Unit {
    let mut u = Unit::starting(Position { x, y }, BLUE);
    u.movement = Movement(movement);
    u
}

#[test]
fn new_board_is_blank() {
    let board = Gameboard::new(3, 2, Terrain::Forest);
    assert_eq!(board.x(), 3);
    assert_eq!(board.y(), 2);
    assert_eq!(board.tiles.len(), 3);
    for (x, column) in board.tiles.iter().enumerate() {
        assert_eq!(column.len(), 2);
        for (y, tile) in column.iter().enumerate() {
            assert_eq!(tile.contents, Terrain::Forest);
            assert_eq!(tile.pos, Position { x: x as i32, y: y as i32 });
            assert_eq!(tile.feature, None);
            assert_eq!(tile.visible_for, TeamSet::empty());
        }
    }
}

#[test]
fn tile_lookup_is_bounds_checked() {
    let board = Gameboard::new(3, 2, Terrain::Grass);
    assert_eq!(board.tile(2, 1).map(|t| t.pos), Some(Position { x: 2, y: 1 }));
    assert_eq!(board.tile(0, 0).map(|t| t.pos_usize()), Some((0, 0)));
    assert!(board.tile(3, 0).is_none());
    assert!(board.tile(0, 2).is_none());
    assert!(board.tile(usize::MAX, usize::MAX).is_none());
    assert!(board.tile_at(Position { x: -1, y: 0 }).is_none());
    assert!(board.tile_at(Position { x: 1, y: 1 }).is_some());
    let empty = Gameboard::new(0, 0, Terrain::Grass);
    assert!(empty.tile(0, 0).is_none());
}

#[test]
fn adjacent_tiles_inner_tile_has_eight() {
    let board = Gameboard::new(3, 3, Terrain::Grass);
    let near = board.adjacent_tiles(1, 1);
    assert_eq!(
        positions(&near),
        vec![(0, 0), (0, 1), (0, 2), (1, 0), (1, 2), (2, 0), (2, 1), (2, 2)]
    );
}

#[test]
fn adjacent_tiles_are_fewer_at_the_edges() {
    let board = Gameboard::new(3, 3, Terrain::Grass);
    assert_eq!(positions(&board.adjacent_tiles(0, 0)), vec![(0, 1), (1, 0), (1, 1)]);
    assert_eq!(
        positions(&board.adjacent_tiles(1, 0)),
        vec![(0, 0), (0, 1), (1, 1), (2, 0), (2, 1)]
    );
    assert_eq!(positions(&board.adjacent_tiles(2, 2)), vec![(1, 1), (1, 2), (2, 1)]);
    // just off the board: the tiles of the board that touch the square
    assert_eq!(positions(&board.adjacent_tiles(3, 1)), vec![(2, 0), (2, 1), (2, 2)]);
    assert!(board.adjacent_tiles(5, 5).is_empty());
    assert!(board.adjacent_tiles(usize::MAX, usize::MAX).is_empty());
    let single = Gameboard::new(1, 1, Terrain::Grass);
    assert!(single.adjacent_tiles(0, 0).is_empty());
}

#[test]
fn movement_cost_is_the_inverse_of_the_speed() {
    let costs = [
        (Terrain::Desert, 12, 1050),
        (Terrain::Forest, 9, 1400),
        (Terrain::Grass, 10, 1260),
        (Terrain::Jungle, 7, 1800),
        (Terrain::Mountains, 5, 2520),
        (Terrain::Savanna, 14, 900),
        (Terrain::ShallowWater, 9, 1400),
        (Terrain::Water, 7, 1800),
    ];
    for (terrain, tenths, cost) in costs {
        assert_eq!(terrain.speed_tenths(), tenths);
        assert_eq!(terrain.movement_cost(), cost);
        assert_eq!(terrain.movement_cost() * terrain.speed_tenths(), 10 * COST_SCALE);
        let tile = Tile::new(terrain, Position { x: 0, y: 0 });
        assert_eq!(tile.movement_cost(), cost);
    }
}

#[test]
fn costs_spread_ring_by_ring_over_grass() {
    let board = Gameboard::new(4, 4, Terrain::Grass);
    let costs = movement_costs(&board, Position { x: 0, y: 0 }).unwrap();
    for x in 0..4usize {
        for y in 0..4usize {
            let ring = x.max(y) as u64;
            assert_eq!(costs[x][y], Some(1260 * ring));
        }
    }
    assert!(movement_costs(&board, Position { x: 4, y: 0 }).is_none());
    assert!(movement_costs(&board, Position { x: 0, y: -1 }).is_none());
}

#[test]
fn first_cost_assigned_to_a_tile_stays() {
    let mut board = Gameboard::new(3, 3, Terrain::Grass);
    board.tiles[1][1].contents = Terrain::Mountains;
    let costs = movement_costs(&board, Position { x: 0, y: 0 }).unwrap();
    assert_eq!(costs[0][0], Some(0));
    assert_eq!(costs[0][1], Some(1260));
    assert_eq!(costs[1][0], Some(1260));
    assert_eq!(costs[1][1], Some(2520));
    assert_eq!(costs[0][2], Some(2520));
    assert_eq!(costs[1][2], Some(2520));
    assert_eq!(costs[2][0], Some(2520));
    assert_eq!(costs[2][1], Some(2520));
    // the far corner is reached from the mountain alone in the second ring
    assert_eq!(costs[2][2], Some(2520 + 1260));
}

#[test]
fn traversible_tiles_within_budget() {
    let board = Gameboard::new(4, 4, Terrain::Grass);
    let one = unit(0, 0, 1).calculate_traversible_tiles(&board, 1);
    assert_eq!(
        one,
        vec![
            Position { x: 0, y: 0 },
            Position { x: 0, y: 1 },
            Position { x: 1, y: 0 },
            Position { x: 1, y: 1 },
        ]
    );
    let three = unit(0, 0, 3).calculate_traversible_tiles(&board, 3);
    assert_eq!(three.len(), 16);
    assert!(three.contains(&Position { x: 2, y: 0 }));
    let none = unit(0, 0, 0).calculate_traversible_tiles(&board, 0);
    assert_eq!(none, vec![Position { x: 0, y: 0 }]);
    let negative = unit(0, 0, -1).calculate_traversible_tiles(&board, -1);
    assert!(negative.is_empty());
    let off = unit(9, 9, 3).calculate_traversible_tiles(&board, 3);
    assert!(off.is_empty());
}

#[test]
fn traversible_tiles_respect_terrain() {
    let mut board = Gameboard::new(3, 1, Terrain::Grass);
    board.tiles[1][0].contents = Terrain::Mountains;
    let costs = movement_costs(&board, Position { x: 0, y: 0 }).unwrap();
    assert_eq!(costs[1][0], Some(2520));
    assert_eq!(costs[2][0], Some(3780));
    let reached = unit(0, 0, 2).calculate_traversible_tiles(&board, 2);
    assert_eq!(reached, vec![Position { x: 0, y: 0 }, Position { x: 1, y: 0 }]);
    assert!(reaches(&board, Position { x: 0, y: 0 }, Position { x: 1, y: 0 }, 2));
    assert!(!reaches(&board, Position { x: 0, y: 0 }, Position { x: 2, y: 0 }, 2));
    assert!(reaches(&board, Position { x: 0, y: 0 }, Position { x: 2, y: 0 }, 3));
    assert!(!reaches(&board, Position { x: 0, y: 0 }, Position { x: 3, y: 0 }, 30));
    assert!(!reaches(&board, Position { x: 3, y: 0 }, Position { x: 0, y: 0 }, 30));
}

#[test]
fn distances() {
    let a = Position::new(1, -2);
    let b = Position::new(-3, 5);
    assert_eq!(a.manhattan_distance(&b), 11);
    assert_eq!(a.chebyshev_distance(&b), 7);
    assert_eq!(a.manhattan_distance(&a), 0);
    let far = Position::new(i32::MIN, i32::MIN);
    let away = Position::new(i32::MAX, i32::MAX);
    assert_eq!(far.manhattan_distance(&away), 2 * (u32::MAX as u64));
    assert_eq!(far.chebyshev_distance(&away), u32::MAX as u64);
}

#[test]
fn board_from_terrain() {
    let terrain = vec![
        vec![Terrain::Grass, Terrain::Water],
        vec![Terrain::Forest, Terrain::Desert],
        vec![Terrain::Jungle, Terrain::Savanna],
    ];
    let board = Gameboard::from_terrain(&terrain).unwrap();
    assert!(board.is_well_formed());
    assert_eq!((board.x(), board.y()), (3, 2));
    for x in 0..3 {
        for y in 0..2 {
            assert_eq!(board.tiles[x][y], Tile::new(terrain[x][y], Position { x: x as i32, y: y as i32 }));
        }
    }
    let ragged = vec![vec![Terrain::Grass, Terrain::Water], vec![Terrain::Forest]];
    assert!(Gameboard::from_terrain(&ragged).is_none());
    let empty = Gameboard::from_terrain(&Vec::new()).unwrap();
    assert_eq!((empty.x(), empty.y()), (0, 0));
    let flat = Gameboard::from_terrain(&vec![Vec::new(), Vec::new()]).unwrap();
    assert_eq!((flat.x(), flat.y()), (2, 0));
}

#[test]
fn well_formedness_is_checked() {
    let mut board = Gameboard::new(2, 2, Terrain::Grass);
    assert!(board.is_well_formed());
    board.tiles[1][0].pos = Position { x: 0, y: 0 };
    assert!(!board.is_well_formed());
    let mut board = Gameboard::new(2, 2, Terrain::Grass);
    board.tiles[1].pop();
    assert!(!board.is_well_formed());
    let mut board = Gameboard::new(2, 2, Terrain::Grass);
    board.x = 3;
    assert!(!board.is_well_formed());
}

#[test]
fn grass_costs_one_tile_per_tile() {
    assert_eq!(Terrain::Grass.speed_tenths(), 10);
    assert_eq!(Terrain::Grass.movement_cost(), COST_SCALE);
    let tile = Tile::new(Terrain::Grass, Position { x: 3, y: 4 });
    assert_eq!(tile.movement_cost(), COST_SCALE);
    // a budget of n crosses exactly n tiles of grass
    let board = Gameboard::new(6, 1, Terrain::Grass);
    for budget in 0..6 {
        let reached = unit(0, 0, budget).calculate_traversible_tiles(&board, budget);
        let expected: Vec<Position> = (0..=budget).map(|x| Position { x, y: 0 }).collect();
        assert_eq!(reached, expected);
    }
}

#[test]
fn a_tile_takes_its_cost_from_the_first_neighbour_that_reaches_it() {
    // (2,0) touches the mountain at (1,0) and the grass at (1,1); the
    // mountain comes first in the ring, so the dearer way in is the one kept
    let mut board = Gameboard::new(3, 2, Terrain::Grass);
    board.tiles[1][0].contents = Terrain::Mountains;
    let costs = movement_costs(&board, Position { x: 0, y: 0 }).unwrap();
    assert_eq!(costs[1][0], Some(2520));
    assert_eq!(costs[1][1], Some(1260));
    assert_eq!(costs[2][0], Some(2520 + 1260));
    assert_eq!(costs[2][1], Some(2520 + 1260));
    assert!(!reaches(&board, Position { x: 0, y: 0 }, Position { x: 2, y: 0 }, 2));
    assert!(reaches(&board, Position { x: 0, y: 0 }, Position { x: 2, y: 0 }, 3));
}
