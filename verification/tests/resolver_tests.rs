use project_calamity::actions::{ActionOutcome, QueuedAction, UnitAction, UnitActions};
use project_calamity::gameboard::Gameboard;
use project_calamity::position::Position;
use project_calamity::queue::PlayerMoves;
use project_calamity::resolver::execute_turn;
use project_calamity::schema::ServerMessages;
use project_calamity::state::GameState;
use project_calamity::team::{PlayerTeam, TeamColour};
use project_calamity::terrain::Terrain;
use project_calamity::units::{Movement, TurnExecuteStage, TurnExecuteStages, Unit};

const BLUE: PlayerTeam = PlayerTeam(TeamColour::Blue);
const RED: PlayerTeam = PlayerTeam(TeamColour::Red);

fn unit_at(x: i32, y: i32, owner: PlayerTeam, movement: i32) -> Unit {
    let mut unit = Unit::starting(Position { x, y }, owner);
    unit.movement = Movement(movement);
    unit
}

fn action(kind: UnitActions, stage: TurnExecuteStages, from: (i32, i32), to: (i32, i32)) -> UnitAction {
    UnitAction {
        action_type: kind,
        turn_stage: TurnExecuteStage(stage),
        curr_pos: Position { x: from.0, y: from.1 },
        action_pos: Position { x: to.0, y: to.1 },
    }
}

fn grass(width: u32, height: u32) -> Gameboard {
    Gameboard::new(width, height, Terrain::Grass)
}

#[test]
fn single_move_within_budget_applies() {
    let mut state = GameState::new(grass(4, 4), vec![unit_at(0, 0, BLUE, 3)]);
    let mut moves = PlayerMoves::new();
    assert!(moves.submit(
        BLUE,
        vec![action(UnitActions::Move, TurnExecuteStages::MidTurn, (0, 0), (2, 0))]
    ));
    let report = execute_turn(&mut state, &mut moves);
    assert_eq!(state.units[0].pos, Position { x: 2, y: 0 });
    assert_eq!(report.outcomes.len(), 1);
    assert_eq!(report.outcomes[0].index, 0);
    assert_eq!(report.outcomes[0].outcome, ActionOutcome::Applied);
    assert_eq!(moves.len(), 0);
}

#[test]
fn two_moves_to_one_tile_both_bounce() {
    let mut state = GameState::new(
        grass(4, 4),
        vec![unit_at(0, 0, BLUE, 3), unit_at(2, 0, RED, 3)],
    );
    let mut moves = PlayerMoves::new();
    moves.submit(
        BLUE,
        vec![action(UnitActions::Move, TurnExecuteStages::MidTurn, (0, 0), (1, 0))],
    );
    moves.submit(
        RED,
        vec![action(UnitActions::Move, TurnExecuteStages::MidTurn, (2, 0), (1, 0))],
    );
    let report = execute_turn(&mut state, &mut moves);
    assert_eq!(state.units[0].pos, Position { x: 0, y: 0 });
    assert_eq!(state.units[1].pos, Position { x: 2, y: 0 });
    assert_eq!(report.outcomes.len(), 2);
    assert!(report.outcomes.iter().all(|r| r.outcome == ActionOutcome::Bounced));
    assert!(report.outbound.is_empty());
    assert_eq!(moves.len(), 0);
}

#[test]
fn attack_on_stacked_units_is_a_no_op() {
    let mut state = GameState::new(
        grass(4, 4),
        vec![unit_at(0, 0, BLUE, 1), unit_at(1, 0, RED, 1), unit_at(1, 0, RED, 1)],
    );
    let before = state.units.clone();
    let mut moves = PlayerMoves::new();
    moves.submit(
        BLUE,
        vec![action(UnitActions::Attack, TurnExecuteStages::MidTurn, (0, 0), (1, 0))],
    );
    let report = execute_turn(&mut state, &mut moves);
    assert_eq!(state.units, before);
    assert_eq!(report.outcomes[0].outcome, ActionOutcome::Bounced);
}

#[test]
fn attack_on_a_sole_unit_lowers_its_health() {
    let mut attacker = unit_at(0, 0, BLUE, 1);
    attacker.attack.base = 2500;
    let mut state = GameState::new(grass(4, 4), vec![attacker, unit_at(1, 0, RED, 1)]);
    let mut moves = PlayerMoves::new();
    moves.submit(
        BLUE,
        vec![action(UnitActions::Attack, TurnExecuteStages::MidTurn, (0, 0), (1, 0))],
    );
    let report = execute_turn(&mut state, &mut moves);
    assert_eq!(report.outcomes[0].outcome, ActionOutcome::Applied);
    assert_eq!(state.units[1].health.0, 3000 - (2500 - 1000));
    assert_eq!(state.units[1].pos, Position { x: 1, y: 0 });
    assert_eq!(state.units.len(), 2);
}

#[test]
fn attack_on_an_empty_tile_is_a_no_op() {
    let mut state = GameState::new(grass(4, 4), vec![unit_at(0, 0, BLUE, 1)]);
    let before = state.units.clone();
    let mut moves = PlayerMoves::new();
    moves.submit(
        BLUE,
        vec![action(UnitActions::Attack, TurnExecuteStages::MidTurn, (0, 0), (3, 3))],
    );
    let report = execute_turn(&mut state, &mut moves);
    assert_eq!(state.units, before);
    assert_eq!(report.outcomes[0].outcome, ActionOutcome::Bounced);
}

#[test]
fn empty_queue_changes_nothing() {
    let mut state = GameState::new(grass(3, 3), vec![unit_at(1, 1, BLUE, 1)]);
    let tiles_before = state.board.tiles.clone();
    let units_before = state.units.clone();
    let mut moves = PlayerMoves::new();
    let report = execute_turn(&mut state, &mut moves);
    assert_eq!(state.board.tiles, tiles_before);
    assert_eq!(state.units, units_before);
    assert!(report.outcomes.is_empty());
    assert!(report.outbound.is_empty());
    let again = execute_turn(&mut state, &mut moves);
    assert_eq!(state.units, units_before);
    assert!(again.outcomes.is_empty());
}

#[test]
fn after_turn_attack_sees_the_pre_turn_move() {
    // Red's attack comes first in no phase order but is queued after blue's
    // batch; it is an after-turn action and must find the blue unit on the
    // tile it moved to in the pre-turn phase.
    let mut state = GameState::new(
        grass(5, 5),
        vec![unit_at(0, 0, BLUE, 3), unit_at(4, 4, RED, 1)],
    );
    state.units[1].attack.base = 2000;
    let mut moves = PlayerMoves::new();
    moves.submit(
        RED,
        vec![action(UnitActions::Attack, TurnExecuteStages::AfterTurn, (4, 4), (2, 0))],
    );
    moves.submit(
        BLUE,
        vec![action(UnitActions::Move, TurnExecuteStages::PreTurn, (0, 0), (1, 0))],
    );
    // blue's move goes to (1,0): the attack at (2,0) finds nobody
    let report = execute_turn(&mut state, &mut moves);
    assert_eq!(state.units[0].pos, Position { x: 1, y: 0 });
    assert_eq!(state.units[0].health.0, 3000);
    assert_eq!(report.outcomes.len(), 2);
    // the move (queue place 0, blue comes first) is taken before the attack
    assert_eq!(report.outcomes[0].index, 0);
    assert_eq!(report.outcomes[0].outcome, ActionOutcome::Applied);
    assert_eq!(report.outcomes[1].index, 1);
    assert_eq!(report.outcomes[1].outcome, ActionOutcome::Bounced);

    // next turn: the attack aims at (1,0) before blue moves away in the
    // mid-turn phase, and the move is queued first
    let mut moves = PlayerMoves::new();
    moves.submit(
        BLUE,
        vec![action(UnitActions::Move, TurnExecuteStages::MidTurn, (1, 0), (2, 0))],
    );
    moves.submit(
        RED,
        vec![action(UnitActions::Attack, TurnExecuteStages::PreTurn, (4, 4), (1, 0))],
    );
    let report = execute_turn(&mut state, &mut moves);
    assert_eq!(state.units[0].pos, Position { x: 2, y: 0 });
    assert_eq!(state.units[0].health.0, 2000);
    assert_eq!(report.outcomes[0].index, 1);
    assert_eq!(report.outcomes[0].outcome, ActionOutcome::Applied);
    assert_eq!(report.outcomes[1].index, 0);
}

#[test]
fn after_turn_attack_hits_unit_that_arrived_earlier_in_the_turn() {
    let mut state = GameState::new(
        grass(5, 5),
        vec![unit_at(0, 0, BLUE, 3), unit_at(4, 4, RED, 1)],
    );
    state.units[1].attack.base = 2000;
    let mut moves = PlayerMoves::new();
    moves.submit(
        BLUE,
        vec![action(UnitActions::Move, TurnExecuteStages::MidTurn, (0, 0), (2, 0))],
    );
    moves.submit(
        RED,
        vec![action(UnitActions::Attack, TurnExecuteStages::AfterTurn, (4, 4), (2, 1))],
    );
    execute_turn(&mut state, &mut moves);
    assert_eq!(state.units[0].health.0, 3000);

    let mut state = GameState::new(
        grass(5, 5),
        vec![unit_at(0, 0, BLUE, 3), unit_at(4, 4, RED, 1), unit_at(3, 3, RED, 3)],
    );
    state.units[1].attack.base = 2000;
    let mut moves = PlayerMoves::new();
    // red's own unit walks onto the target in the pre-turn phase; the
    // after-turn attack of the same batch, written first, strikes it there
    moves.submit(
        RED,
        vec![
            action(UnitActions::Attack, TurnExecuteStages::AfterTurn, (4, 4), (3, 2)),
            action(UnitActions::Move, TurnExecuteStages::PreTurn, (3, 3), (3, 1)),
        ],
    );
    let report = execute_turn(&mut state, &mut moves);
    assert_eq!(state.units[2].pos, Position { x: 3, y: 1 });
    assert_eq!(report.outcomes[0].index, 1);
    assert_eq!(report.outcomes[1].index, 0);
    assert_eq!(report.outcomes[1].outcome, ActionOutcome::Bounced);
}

#[test]
fn heal_and_build_are_reported_unsupported() {
    let mut state = GameState::new(grass(3, 3), vec![unit_at(0, 0, BLUE, 1)]);
    let before = state.units.clone();
    let mut moves = PlayerMoves::new();
    moves.submit(
        BLUE,
        vec![
            action(UnitActions::Heal, TurnExecuteStages::PreTurn, (0, 0), (0, 1)),
            action(UnitActions::Build, TurnExecuteStages::AfterTurn, (0, 0), (1, 1)),
        ],
    );
    let report = execute_turn(&mut state, &mut moves);
    assert_eq!(state.units, before);
    assert_eq!(report.outcomes.len(), 2);
    assert_eq!(report.outcomes[0].outcome, ActionOutcome::Unsupported);
    assert_eq!(report.outcomes[1].outcome, ActionOutcome::Unsupported);
}

#[test]
fn move_beyond_budget_bounces() {
    let mut state = GameState::new(grass(6, 6), vec![unit_at(0, 0, BLUE, 1)]);
    let mut moves = PlayerMoves::new();
    moves.submit(
        BLUE,
        vec![action(UnitActions::Move, TurnExecuteStages::MidTurn, (0, 0), (5, 5))],
    );
    let report = execute_turn(&mut state, &mut moves);
    assert_eq!(state.units[0].pos, Position { x: 0, y: 0 });
    assert_eq!(report.outcomes[0].outcome, ActionOutcome::Bounced);
}

#[test]
fn move_of_a_foreign_unit_bounces() {
    let mut state = GameState::new(grass(4, 4), vec![unit_at(0, 0, BLUE, 3)]);
    let mut moves = PlayerMoves::new();
    moves.submit(
        RED,
        vec![action(UnitActions::Move, TurnExecuteStages::MidTurn, (0, 0), (1, 0))],
    );
    let report = execute_turn(&mut state, &mut moves);
    assert_eq!(state.units[0].pos, Position { x: 0, y: 0 });
    assert_eq!(report.outcomes[0].outcome, ActionOutcome::Bounced);
}

#[test]
fn move_off_the_board_bounces() {
    let mut state = GameState::new(grass(2, 2), vec![unit_at(0, 0, BLUE, 3)]);
    let mut moves = PlayerMoves::new();
    moves.submit(
        BLUE,
        vec![action(UnitActions::Move, TurnExecuteStages::MidTurn, (0, 0), (-1, 0))],
    );
    let report = execute_turn(&mut state, &mut moves);
    assert_eq!(state.units[0].pos, Position { x: 0, y: 0 });
    assert_eq!(report.outcomes[0].outcome, ActionOutcome::Bounced);
}

#[test]
fn move_reveals_tiles_and_tells_the_teams() {
    let mut state = GameState::new(
        grass(5, 1),
        vec![unit_at(0, 0, BLUE, 1), unit_at(2, 0, RED, 1)],
    );
    state.board.reveal_tile(0, 0, BLUE);
    state.board.reveal_tile(1, 0, RED);
    let mut moves = PlayerMoves::new();
    moves.submit(
        BLUE,
        vec![action(UnitActions::Move, TurnExecuteStages::MidTurn, (0, 0), (1, 0))],
    );
    let report = execute_turn(&mut state, &mut moves);
    assert_eq!(state.units[0].pos, Position { x: 1, y: 0 });
    // blue now sees (0,0), (1,0), (2,0); (3,0) stays hidden
    assert!(state.board.tiles[1][0].visible_for.blue);
    assert!(state.board.tiles[2][0].visible_for.blue);
    assert!(!state.board.tiles[3][0].visible_for.blue);
    let kinds: Vec<(PlayerTeam, &str)> = report
        .outbound
        .iter()
        .map(|o| {
            (
                o.team,
                match o.message {
                    ServerMessages::PlayerTileInfoPacket { .. } => "tile",
                    ServerMessages::UnitAddPacket { .. } => "add",
                    ServerMessages::UnitModifyPacket { .. } => "moved",
                    ServerMessages::UnitRemovePacket { .. } => "removed",
                    _ => "other",
                },
            )
        })
        .collect();
    assert_eq!(
        kinds,
        vec![
            (BLUE, "tile"),
            (BLUE, "tile"),
            (BLUE, "add"),
            (BLUE, "moved"),
            (RED, "add"),
        ]
    );
    match &report.outbound[2].message {
        ServerMessages::UnitAddPacket { unit } => assert_eq!(unit.owner, RED),
        _ => panic!("expected the red unit to be announced"),
    }
    match &report.outbound[3].message {
        ServerMessages::UnitModifyPacket { prev_pos, unit } => {
            assert_eq!(*prev_pos, Position { x: 0, y: 0 });
            assert_eq!(unit.pos, Position { x: 1, y: 0 });
        }
        _ => panic!("expected a move"),
    }
}

#[test]
fn second_batch_of_a_team_is_dropped() {
    let mut moves = PlayerMoves::new();
    let first = vec![action(UnitActions::Move, TurnExecuteStages::MidTurn, (0, 0), (1, 0))];
    let second = vec![action(UnitActions::Move, TurnExecuteStages::MidTurn, (0, 0), (0, 1))];
    assert!(moves.submit(BLUE, first.clone()));
    assert!(!moves.submit(BLUE, second));
    assert_eq!(moves.len(), 1);
    assert!(moves.submitted(BLUE));
    assert!(!moves.submitted(RED));
    let queue = moves.queued_actions();
    assert_eq!(queue, vec![QueuedAction { team: BLUE, action: first[0] }]);
    assert!(moves.all_submitted(1));
    assert!(!moves.all_submitted(2));
    moves.clear();
    assert_eq!(moves.len(), 0);
    assert!(moves.queued_actions().is_empty());
}

#[test]
fn queue_is_ordered_by_team_colour() {
    let mut moves = PlayerMoves::new();
    let red = action(UnitActions::Move, TurnExecuteStages::MidTurn, (2, 0), (1, 0));
    let blue = action(UnitActions::Attack, TurnExecuteStages::PreTurn, (0, 0), (1, 0));
    let yellow = action(UnitActions::Heal, TurnExecuteStages::AfterTurn, (3, 3), (3, 3));
    moves.submit(PlayerTeam(TeamColour::Yellow), vec![yellow]);
    moves.submit(RED, vec![red]);
    moves.submit(BLUE, vec![blue, blue]);
    let queue = moves.queued_actions();
    assert_eq!(
        queue,
        vec![
            QueuedAction { team: BLUE, action: blue },
            QueuedAction { team: BLUE, action: blue },
            QueuedAction { team: RED, action: red },
            QueuedAction { team: PlayerTeam(TeamColour::Yellow), action: yellow },
        ]
    );
}

#[test]
fn unit_leaving_a_teams_sight_is_removed_for_that_team() {
    let mut state = GameState::new(
        grass(5, 1),
        vec![unit_at(1, 0, RED, 1)],
    );
    // blue sees where the red unit stands, and nothing else; red sees nothing yet
    state.board.reveal_tile(1, 0, BLUE);
    let mut moves = PlayerMoves::new();
    moves.submit(
        RED,
        vec![action(UnitActions::Move, TurnExecuteStages::MidTurn, (1, 0), (2, 0))],
    );
    let report = execute_turn(&mut state, &mut moves);
    assert_eq!(state.units[0].pos, Position { x: 2, y: 0 });
    let to_blue: Vec<&ServerMessages> = report
        .outbound
        .iter()
        .filter(|o| o.team == BLUE)
        .map(|o| &o.message)
        .collect();
    assert_eq!(to_blue.len(), 1);
    match to_blue[0] {
        ServerMessages::UnitRemovePacket { pos } => assert_eq!(*pos, Position { x: 1, y: 0 }),
        _ => panic!("expected the unit to leave blue's sight"),
    }
    // red learns the three tiles around its unit and that the unit moved
    let to_red: Vec<&ServerMessages> = report
        .outbound
        .iter()
        .filter(|o| o.team == RED)
        .map(|o| &o.message)
        .collect();
    assert_eq!(to_red.len(), 4);
    assert!(matches!(to_red[3], ServerMessages::UnitModifyPacket { .. }));
    // nobody is told of a tile that the team has not seen
    for outbound in &report.outbound {
        let seen = |p: Position| {
            state.board.tiles[p.x as usize][p.y as usize].visible_for.contains(outbound.team)
        };
        match &outbound.message {
            ServerMessages::PlayerTileInfoPacket { tile } => assert!(seen(tile.pos)),
            ServerMessages::UnitAddPacket { unit } => assert!(seen(unit.pos)),
            ServerMessages::UnitModifyPacket { prev_pos, unit } => {
                assert!(seen(*prev_pos) && seen(unit.pos))
            }
            ServerMessages::UnitRemovePacket { pos } => assert!(seen(*pos)),
            _ => panic!("the resolver sends no other message"),
        }
    }
}

#[test]
fn every_action_is_reported_once() {
    let mut state = GameState::new(
        grass(6, 6),
        vec![unit_at(0, 0, BLUE, 2), unit_at(5, 5, RED, 2)],
    );
    let mut moves = PlayerMoves::new();
    moves.submit(
        BLUE,
        vec![
            action(UnitActions::Build, TurnExecuteStages::AfterTurn, (0, 0), (0, 1)),
            action(UnitActions::Move, TurnExecuteStages::MidTurn, (0, 0), (1, 1)),
            action(UnitActions::Heal, TurnExecuteStages::PreTurn, (0, 0), (0, 0)),
        ],
    );
    moves.submit(
        RED,
        vec![
            action(UnitActions::Attack, TurnExecuteStages::MidTurn, (5, 5), (1, 1)),
            action(UnitActions::Move, TurnExecuteStages::PreTurn, (5, 5), (4, 4)),
        ],
    );
    let report = execute_turn(&mut state, &mut moves);
    let order: Vec<usize> = report.outcomes.iter().map(|r| r.index).collect();
    assert_eq!(order, vec![2, 4, 1, 3, 0]);
    let mut sorted = order.clone();
    sorted.sort();
    assert_eq!(sorted, vec![0, 1, 2, 3, 4]);
    assert_eq!(moves.len(), 0);
}
