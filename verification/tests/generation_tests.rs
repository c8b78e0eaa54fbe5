use project_calamity::features::TileFeatures;
use project_calamity::generation::{
    calculate_nest_positions, can_seed, first_units, generate_gameboard, seeded_tile,
};
use project_calamity::position::Position;
use project_calamity::team::{PlayerTeam, TeamColour, TeamSet};
use project_calamity::terrain::Terrain;
use project_calamity::units::{Archetype, Archetypes, Unit, UnitID};

const BLUE: PlayerTeam = PlayerTeam(TeamColour::Blue);
const RED: PlayerTeam = PlayerTeam(TeamColour::Red);
const PURPLE: PlayerTeam = PlayerTeam(TeamColour::Purple);

fn land(width: usize, height: usize) -> Vec<Vec<Terrain>> {
    (0..width)
        .map(|x| {
            (0..height)
                .map(|y| if (x + y) % 2 == 0 { Terrain::Grass } else { Terrain::Water })
                .collect()
        })
        .collect()
}

#[test]
fn nest_positions() {
    assert_eq!(calculate_nest_positions(32, 24, 2), vec![(1, 22), (30, 1)]);
    assert_eq!(calculate_nest_positions(32, 24, 3), vec![(1, 22), (30, 22), (16, 1)]);
    assert_eq!(
        calculate_nest_positions(32, 24, 4),
        vec![(1, 1), (1, 22), (30, 1), (30, 22)]
    );
    assert_eq!(
        calculate_nest_positions(32, 24, 9),
        vec![(1, 1), (1, 22), (30, 1), (30, 22)]
    );
    assert_eq!(calculate_nest_positions(2, 2, 2), vec![(1, 0), (0, 1)]);
}

#[test]
fn seeded_tiles() {
    let nests = vec![(1, 6), (6, 1)];
    let teams = vec![BLUE, RED];
    let site = seeded_tile(Terrain::Jungle, &nests, &teams, 4, 4, 0);
    assert_eq!(site.contents, Terrain::Jungle);
    assert_eq!(site.pos, Position { x: 4, y: 4 });
    assert_eq!(site.visible_for, TeamSet::empty());
    let feature = site.feature.unwrap();
    assert_eq!(feature.feature, TileFeatures::CurrencySite(Archetype(Archetypes::Science)));
    assert_eq!(feature.pos, Position { x: 4, y: 4 });
    assert_eq!(feature.visible_to_players, TeamSet::empty());
    let library = seeded_tile(Terrain::Jungle, &nests, &teams, 4, 4, 1);
    assert_eq!(
        library.feature.unwrap().feature,
        TileFeatures::CurrencySite(Archetype(Archetypes::Magic))
    );
    for roll in 2..40 {
        assert_eq!(seeded_tile(Terrain::Jungle, &nests, &teams, 4, 4, roll).feature, None);
    }
    // a nest takes the place of whatever the roll would have put there
    for roll in [0, 1, 17] {
        let nest = seeded_tile(Terrain::Grass, &nests, &teams, 6, 1, roll);
        let feature = nest.feature.unwrap();
        assert_eq!(feature.feature, TileFeatures::Nest(RED));
        assert!(feature.visible_to_players.contains(RED));
        assert!(!feature.visible_to_players.contains(BLUE));
        assert!(nest.visible_for.contains(RED));
        assert!(!nest.visible_for.contains(BLUE));
    }
    let beside = seeded_tile(Terrain::Grass, &nests, &teams, 2, 7, 5);
    assert!(beside.visible_for.contains(BLUE));
    let apart = seeded_tile(Terrain::Grass, &nests, &teams, 3, 6, 5);
    assert_eq!(apart.visible_for, TeamSet::empty());
}

#[test]
fn starting_units_stand_beside_the_nests() {
    let units = first_units(&vec![(1, 6), (6, 1)], &vec![BLUE, RED]);
    assert_eq!(
        units,
        vec![
            Unit::starting(Position { x: 1, y: 5 }, BLUE),
            Unit::starting(Position { x: 1, y: 7 }, BLUE),
            Unit::starting(Position { x: 6, y: 0 }, RED),
            Unit::starting(Position { x: 6, y: 2 }, RED),
        ]
    );
    let unit = units[0];
    assert_eq!(unit.id, UnitID::ScienceGenericTest);
    assert_eq!(unit.health.0, 3000);
    assert_eq!(unit.attack.base, 1000);
    assert_eq!(unit.attack.range, 1);
    assert_eq!(unit.defense.base, 1000);
    assert_eq!(unit.movement.0, 1);
    assert_eq!(unit.archetype, Archetype(Archetypes::Unaligned));
}

#[test]
fn generated_board() {
    let terrain = land(8, 8);
    let teams = vec![BLUE, RED, PURPLE];
    let state = generate_gameboard(&terrain, &teams).unwrap();
    assert_eq!((state.board.x(), state.board.y()), (8, 8));
    let nests = calculate_nest_positions(8, 8, 3);
    assert_eq!(state.units, first_units(&nests, &teams));
    for x in 0..8usize {
        for y in 0..8usize {
            let tile = &state.board.tiles[x][y];
            assert_eq!(tile.contents, terrain[x][y]);
            assert_eq!(tile.pos, Position { x: x as i32, y: y as i32 });
            for (i, team) in teams.iter().enumerate() {
                let near = (nests[i].0 as i64 - x as i64).abs() <= 1
                    && (nests[i].1 as i64 - y as i64).abs() <= 1;
                assert_eq!(tile.visible_for.contains(*team), near);
            }
            let nest = nests.iter().position(|n| *n == (x as u32, y as u32));
            match (nest, tile.feature) {
                (Some(i), Some(f)) => assert_eq!(f.feature, TileFeatures::Nest(teams[i])),
                (Some(_), None) => panic!("a nest is missing"),
                (None, Some(f)) => {
                    assert!(matches!(f.feature, TileFeatures::CurrencySite(_)));
                    assert_eq!(f.visible_to_players, TeamSet::empty());
                    assert_eq!(f.pos, tile.pos);
                }
                (None, None) => {}
            }
        }
    }
}

#[test]
fn nothing_is_generated_for_bad_input() {
    assert!(generate_gameboard(&land(8, 8), &vec![BLUE]).is_none());
    assert!(generate_gameboard(&land(8, 8), &vec![BLUE; 5]).is_none());
    assert!(generate_gameboard(&land(1, 8), &vec![BLUE, RED]).is_none());
    assert!(generate_gameboard(&land(8, 1), &vec![BLUE, RED]).is_none());
    assert!(generate_gameboard(&Vec::new(), &vec![BLUE, RED]).is_none());
    let mut ragged = land(4, 4);
    ragged[2].pop();
    assert!(!can_seed(&ragged, &vec![BLUE, RED]));
    assert!(generate_gameboard(&ragged, &vec![BLUE, RED]).is_none());
    assert!(can_seed(&land(2, 2), &vec![BLUE, RED]));
    assert!(generate_gameboard(&land(2, 2), &vec![BLUE, RED]).is_some());
}

#[test]
fn atlas_index_stays_in_the_terrain_block() {
    let blocks = [
        (Terrain::Grass, 0),
        (Terrain::Water, 4),
        (Terrain::ShallowWater, 8),
        (Terrain::Jungle, 12),
        (Terrain::Desert, 16),
        (Terrain::Mountains, 20),
        (Terrain::Forest, 24),
        (Terrain::Savanna, 28),
    ];
    for (terrain, base) in blocks {
        for variant in 0..4 {
            assert_eq!(terrain.atlas_index_for(variant), base + variant);
        }
        for _ in 0..50 {
            let index = terrain.to_atlas_index();
            assert!(base <= index && index < base + 4);
        }
    }
}
