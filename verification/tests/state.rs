use pacman_engine::entities::{Direction, GhostEntity, GhostMode, GhostType, PacMan, Position, HALF_TILE, TILE};
use pacman_engine::maze::{CellType, Maze, MAZE_HEIGHT, MAZE_WIDTH};
use pacman_engine::state::{
    any_out_of_step, frighten_all, move_ghost, recover_all, scheduled_mode, switch_all, touches, GameMode,
    GamePhase, GameStateInner, FRIGHT_SPAN,
};

// Helper to build inner state (avoids repeating the match logic in tests)
fn classic() -> GameStateInner {
    GameStateInner::new(GameMode::Classic)
}

fn pvp() -> GameStateInner {
    GameStateInner::new(GameMode::PvP)
}

fn playing() -> GameStateInner {
    let mut state = classic();
    state.phase = GamePhase::Playing;
    state
}

/// Puts every ghost on one far tile, so that none meets Pac-Man.
fn park_ghosts(state: &mut GameStateInner) {
    for g in state.ghosts.iter_mut() {
        g.position = Position::at_tile(26, 29);
    }
}

#[test]
fn new_classic_game_has_correct_mode() {
    let state = classic();
    assert_eq!(state.mode, GameMode::Classic);
    assert_eq!(state.mode_str(), "classic");
}

#[test]
fn new_pvp_game_has_correct_mode() {
    let state = pvp();
    assert_eq!(state.mode, GameMode::PvP);
    assert_eq!(state.mode_str(), "pvp");
}

#[test]
fn new_game_starts_in_ready_phase() {
    let state = classic();
    assert_eq!(state.phase, GamePhase::Ready);
    assert_eq!(state.phase_str(), "ready");
}

#[test]
fn new_game_has_correct_maze_size() {
    let state = classic();
    assert_eq!(state.maze.width, MAZE_WIDTH);
    assert_eq!(state.maze.height, MAZE_HEIGHT);
}

#[test]
fn new_game_has_four_ghosts() {
    let state = classic();
    assert_eq!(state.ghosts.len(), 4);
}

#[test]
fn new_game_ghosts_are_blinky_pinky_inky_clyde() {
    let state = classic();
    let types: Vec<GhostType> = state.ghosts.iter().map(|g| g.ghost_type).collect();
    assert_eq!(
        types,
        vec![
            GhostType::Blinky,
            GhostType::Pinky,
            GhostType::Inky,
            GhostType::Clyde,
        ]
    );
}

#[test]
fn new_game_has_dots() {
    let state = classic();
    assert!(state.dots_remaining > 0);
}

#[test]
fn new_game_starts_at_level_1() {
    let state = classic();
    assert_eq!(state.level, 1);
}

#[test]
fn new_game_pacman_has_3_lives() {
    let state = classic();
    assert_eq!(state.pacman.lives, 3);
    assert_eq!(state.pacman.score, 0);
}

#[test]
fn is_game_over_with_no_lives() {
    let mut state = classic();
    state.pacman.lives = 0;
    assert!(state.is_game_over());
}

#[test]
fn is_level_complete_with_no_dots() {
    let mut state = classic();
    state.dots_remaining = 0;
    assert!(state.is_level_complete());
}

#[test]
fn test_ghost_movement_out_of_spawn() {
    let mut gs = GameStateInner::new(GameMode::Classic);
    gs.phase = GamePhase::Playing;

    let initial_y = gs.ghosts[0].position.y;

    // Tick a few frames (0.016 seconds each)
    for _ in 0..10 {
        gs.tick(16_000);
    }

    println!("Ghost 0 after 10 ticks: x: {}, y: {}, dir: {:?}", gs.ghosts[0].position.x, gs.ghosts[0].position.y, gs.ghosts[0].direction);

    assert!(gs.ghosts[0].position.y < initial_y, "Blinky should move up from start");

    // Tick until he reaches row 10
    for _ in 0..50 {
        gs.tick(16_000);
    }

    println!("Ghost 0 after 60 ticks: x: {}, y: {}, dir: {:?}", gs.ghosts[0].position.x, gs.ghosts[0].position.y, gs.ghosts[0].direction);
}

#[test]
fn new_game_counts_the_mazes_dots() {
    let state = classic();
    assert_eq!(state.dots_remaining, state.maze.dots_remaining());
    assert_eq!(state.dots_remaining, 282);
    assert_eq!(state.global_timer, 0);
    assert_eq!(state.frightened_timer, 0);
    assert_eq!(state.pacman, PacMan::new());
    assert_eq!(state.ghosts, GhostEntity::create_all());
}

#[test]
fn game_is_not_over_with_lives_left() {
    let state = classic();
    assert!(!state.is_game_over());
    assert!(!state.is_level_complete());
}

#[test]
fn phase_tags_are_lower_case() {
    let mut state = classic();
    state.phase = GamePhase::Playing;
    assert_eq!(state.phase_str(), "playing");
    state.phase = GamePhase::Paused;
    assert_eq!(state.phase_str(), "paused");
    state.phase = GamePhase::GameOver;
    assert_eq!(state.phase_str(), "gameover");
}

#[test]
fn schedule_scatters_for_seven_seconds_of_twenty_seven() {
    assert_eq!(scheduled_mode(0), GhostMode::Scatter);
    assert_eq!(scheduled_mode(6_999_999), GhostMode::Scatter);
    assert_eq!(scheduled_mode(7_000_000), GhostMode::Chase);
    assert_eq!(scheduled_mode(26_999_999), GhostMode::Chase);
    assert_eq!(scheduled_mode(27_000_000), GhostMode::Scatter);
    assert_eq!(scheduled_mode(33_999_999), GhostMode::Scatter);
    assert_eq!(scheduled_mode(34_000_000), GhostMode::Chase);
    assert_eq!(scheduled_mode(u64::MAX), GhostMode::Chase);
}

#[test]
fn tick_does_nothing_unless_playing() {
    for phase in [GamePhase::Ready, GamePhase::Paused, GamePhase::GameOver] {
        let mut state = classic();
        state.phase = phase;
        if phase == GamePhase::GameOver {
            state.pacman.lives = 0;
        }
        let before = format!("{:?}", state);
        state.tick(16_000);
        assert_eq!(format!("{:?}", state), before);
    }
}

#[test]
fn tick_of_zero_moves_nobody() {
    let mut state = playing();
    park_ghosts(&mut state);
    let ghosts = state.ghosts.clone();
    state.tick(0);
    assert_eq!(state.pacman.position, Position::at_tile(14, 23));
    assert_eq!(state.ghosts, ghosts);
    assert_eq!(state.global_timer, 0);
    // The dot under Pac-Man is eaten all the same.
    assert_eq!(state.pacman.score, 10);
}

#[test]
fn timers_run_the_global_clock_without_fright() {
    let mut state = playing();
    let ghosts = state.ghosts.clone();
    state.update_timers(16_000);
    assert_eq!(state.global_timer, 16_000);
    assert_eq!(state.frightened_timer, 0);
    assert_eq!(state.ghosts, ghosts);
}

#[test]
fn timers_hold_the_global_clock_during_fright() {
    let mut state = playing();
    state.global_timer = 1_000_000;
    state.frightened_timer = 100_000;
    let ghosts = state.ghosts.clone();
    state.update_timers(16_000);
    assert_eq!(state.global_timer, 1_000_000);
    assert_eq!(state.frightened_timer, 84_000);
    assert_eq!(state.ghosts, ghosts);
}

#[test]
fn fright_timer_stops_at_zero() {
    let mut state = playing();
    state.global_timer = 8_000_000;
    state.frightened_timer = 10_000;
    state.ghosts[0].mode = GhostMode::Frightened;
    state.ghosts[1].mode = GhostMode::Eaten;
    state.ghosts[2].mode = GhostMode::Frightened;
    state.ghosts[2].direction = Direction::Left;
    // Clyde stays in Scatter, out of step with the schedule.
    state.update_timers(16_000);
    assert_eq!(state.frightened_timer, 0);
    assert_eq!(state.global_timer, 8_000_000);
    // The frightened ghosts take up the scheduled mode and keep their way.
    assert_eq!(state.ghosts[0].mode, GhostMode::Chase);
    assert_eq!(state.ghosts[0].direction, Direction::Up);
    assert_eq!(state.ghosts[2].mode, GhostMode::Chase);
    assert_eq!(state.ghosts[2].direction, Direction::Left);
    assert_eq!(state.ghosts[1].mode, GhostMode::Eaten);
    // Nothing else changes on the tick on which the fright runs out.
    assert_eq!(state.ghosts[3].mode, GhostMode::Scatter);
    assert_eq!(state.ghosts[3].direction, Direction::Up);
}

#[test]
fn fright_timer_running_out_exactly() {
    let mut state = playing();
    state.frightened_timer = 16_000;
    state.ghosts[1].mode = GhostMode::Frightened;
    state.update_timers(16_000);
    assert_eq!(state.frightened_timer, 0);
    assert_eq!(state.ghosts[1].mode, GhostMode::Scatter);
}

#[test]
fn schedule_change_turns_every_scheduled_ghost_back() {
    let mut state = playing();
    state.global_timer = 6_990_000;
    state.ghosts[1].direction = Direction::Left;
    state.ghosts[2].mode = GhostMode::Eaten;
    state.ghosts[3].mode = GhostMode::Frightened;
    state.update_timers(16_000);
    assert_eq!(state.global_timer, 7_006_000);
    assert_eq!(state.ghosts[0].mode, GhostMode::Chase);
    assert_eq!(state.ghosts[0].direction, Direction::Down);
    assert_eq!(state.ghosts[1].mode, GhostMode::Chase);
    assert_eq!(state.ghosts[1].direction, Direction::Right);
    assert_eq!(state.ghosts[2].mode, GhostMode::Eaten);
    assert_eq!(state.ghosts[2].direction, Direction::Up);
    assert_eq!(state.ghosts[3].mode, GhostMode::Frightened);
    assert_eq!(state.ghosts[3].direction, Direction::Up);
    // One tick later nothing turns again.
    state.update_timers(16_000);
    assert_eq!(state.ghosts[0].direction, Direction::Down);
    assert_eq!(state.ghosts[1].direction, Direction::Right);
}

#[test]
fn one_ghost_out_of_step_turns_all_scheduled_ghosts() {
    let mut state = playing();
    state.global_timer = 1_000_000;
    // The schedule says Scatter; Blinky alone is in Chase.
    state.ghosts[0].mode = GhostMode::Chase;
    state.update_timers(16_000);
    for g in &state.ghosts {
        assert_eq!(g.mode, GhostMode::Scatter);
        assert_eq!(g.direction, Direction::Down);
    }
}

#[test]
fn ghost_list_helpers_follow_their_rules() {
    let mut ghosts = GhostEntity::create_all();
    ghosts[0].mode = GhostMode::Chase;
    ghosts[1].mode = GhostMode::Frightened;
    ghosts[2].mode = GhostMode::Eaten;
    assert!(any_out_of_step(&ghosts, GhostMode::Scatter));
    assert!(any_out_of_step(&ghosts, GhostMode::Chase));
    ghosts[3].mode = GhostMode::Chase;
    assert!(!any_out_of_step(&ghosts, GhostMode::Chase));
    assert!(any_out_of_step(&ghosts, GhostMode::Scatter));

    let mut recovered = ghosts.clone();
    recover_all(&mut recovered, GhostMode::Scatter);
    let modes: Vec<GhostMode> = recovered.iter().map(|g| g.mode).collect();
    assert_eq!(modes, vec![GhostMode::Chase, GhostMode::Scatter, GhostMode::Eaten, GhostMode::Chase]);
    assert!(recovered.iter().all(|g| g.direction == Direction::Up));

    let mut switched = ghosts.clone();
    switch_all(&mut switched, GhostMode::Scatter);
    let modes: Vec<GhostMode> = switched.iter().map(|g| g.mode).collect();
    assert_eq!(modes, vec![GhostMode::Scatter, GhostMode::Frightened, GhostMode::Eaten, GhostMode::Scatter]);
    let dirs: Vec<Direction> = switched.iter().map(|g| g.direction).collect();
    assert_eq!(dirs, vec![Direction::Down, Direction::Up, Direction::Up, Direction::Down]);

    let mut scared = ghosts.clone();
    frighten_all(&mut scared);
    let modes: Vec<GhostMode> = scared.iter().map(|g| g.mode).collect();
    assert_eq!(modes, vec![GhostMode::Frightened, GhostMode::Frightened, GhostMode::Eaten, GhostMode::Frightened]);
    let dirs: Vec<Direction> = scared.iter().map(|g| g.direction).collect();
    assert_eq!(dirs, vec![Direction::Down, Direction::Down, Direction::Up, Direction::Down]);

    let mut none: Vec<GhostEntity> = Vec::new();
    assert!(!any_out_of_step(&none, GhostMode::Chase));
    frighten_all(&mut none);
    assert!(none.is_empty());
}

#[test]
fn touching_is_closer_than_half_a_tile() {
    let a = Position::at_tile(5, 5);
    assert!(touches(a, a));
    assert!(touches(a, Position::new(5 * TILE + HALF_TILE - 1, 5 * TILE)));
    assert!(!touches(a, Position::new(5 * TILE + HALF_TILE, 5 * TILE)));
    assert!(!touches(a, Position::new(5 * TILE, 5 * TILE - HALF_TILE)));
    // 600_000^2 + 800_000^2 = 1_000_000^2 exactly: not touching.
    assert!(!touches(a, Position::new(5 * TILE + 600_000, 5 * TILE + 800_000)));
    assert!(touches(a, Position::new(5 * TILE + 600_000, 5 * TILE + 799_999)));
    assert!(touches(a, Position::new(5 * TILE - 700_000, 5 * TILE + 700_000)));
    assert!(!touches(Position::new(i64::MIN, i64::MIN), Position::new(i64::MAX, i64::MAX)));
    assert!(!touches(Position::new(0, i64::MIN), Position::new(0, i64::MAX)));
}

#[test]
fn pacman_moves_at_eleven_tiles_a_second() {
    let mut state = playing();
    park_ghosts(&mut state);
    state.tick(16_000);
    assert_eq!(state.pacman.position, Position::new(14 * TILE - 352_000, 23 * TILE));
    assert_eq!(state.pacman.direction, Direction::Left);
    // One second covers eleven tiles.
    let mut state = playing();
    park_ghosts(&mut state);
    state.pacman.position = Position::at_tile(20, 23);
    state.tick(1_000_000);
    assert_eq!(state.pacman.position, Position::at_tile(9, 23));
}

#[test]
fn update_pacman_takes_the_pending_turn() {
    let mut state = playing();
    state.pacman.position = Position::new(6 * TILE + 100_000, 23 * TILE);
    state.pacman.next_direction = Direction::Up;
    state.update_pacman(352_000);
    assert_eq!(state.pacman.direction, Direction::Up);
    assert_eq!(state.pacman.next_direction, Direction::Up);
    assert_eq!(state.pacman.position, Position::new(6 * TILE, 23 * TILE - 352_000));
    assert_eq!(state.pacman.score, 0);
}

#[test]
fn ghost_speed_goes_by_mode() {
    let maze = Maze::new();
    let pac = PacMan::new();
    // On row 5, a free corridor, heading right from a little past a center.
    let start = Position::new(6 * TILE + 10, 5 * TILE);
    let mut g = GhostEntity::new(GhostType::Pinky, start);
    g.direction = Direction::Right;
    let moved = move_ghost(&maze, GameMode::Classic, g, &pac, start, 0, 0, 16_000);
    assert_eq!(moved.position, Position::new(6 * TILE + 10 + 288_000, 5 * TILE));
    g.mode = GhostMode::Chase;
    let moved = move_ghost(&maze, GameMode::Classic, g, &pac, start, 0, 0, 16_000);
    assert_eq!(moved.position, Position::new(6 * TILE + 10 + 288_000, 5 * TILE));
    g.mode = GhostMode::Frightened;
    let moved = move_ghost(&maze, GameMode::Classic, g, &pac, start, 0, 6_000_000, 16_000);
    assert_eq!(moved.position, Position::new(6 * TILE + 10 + 144_000, 5 * TILE));
    g.mode = GhostMode::Eaten;
    let moved = move_ghost(&maze, GameMode::Classic, g, &pac, start, 0, 0, 16_000);
    assert_eq!(moved.position, Position::new(6 * TILE + 10 + 576_000, 5 * TILE));
    assert_eq!(moved.mode, GhostMode::Eaten);
    assert_eq!(moved.direction, Direction::Right);
}

#[test]
fn ghost_decides_at_the_center_and_stops_there() {
    let maze = Maze::new();
    let pac = PacMan::new();
    // Blinky in Chase comes from the right into (col 6, row 5); Pac-Man is at (14, 23).
    let start = Position::new(6 * TILE + 100_000, 5 * TILE);
    let mut g = GhostEntity::new(GhostType::Blinky, start);
    g.direction = Direction::Left;
    g.mode = GhostMode::Chase;
    let moved = move_ghost(&maze, GameMode::Classic, g, &pac, start, 0, 0, 16_000);
    assert_eq!(moved.position, Position::at_tile(6, 5));
    // Down, to (6, 6), is nearest: 64 + 289 against 81 + 324 (left) and 64 + 361 (up).
    assert_eq!(moved.direction, Direction::Down);
    assert_eq!(moved.mode, GhostMode::Chase);
    assert_eq!(moved.ghost_type, GhostType::Blinky);
    // From the center itself no decision is made: the ghost goes on.
    g.position = Position::at_tile(6, 5);
    let moved = move_ghost(&maze, GameMode::Classic, g, &pac, start, 0, 0, 16_000);
    assert_eq!(moved.position, Position::new(6 * TILE - 288_000, 5 * TILE));
    assert_eq!(moved.direction, Direction::Left);
}

#[test]
fn ai_ghost_ignores_the_pending_direction() {
    let maze = Maze::new();
    let pac = PacMan::new();
    let start = Position::new(8 * TILE, 5 * TILE);
    let mut g = GhostEntity::new(GhostType::Blinky, start);
    g.direction = Direction::Left;
    g.next_direction = Direction::Right;
    let moved = move_ghost(&maze, GameMode::Classic, g, &pac, start, 0, 0, 16_000);
    assert_eq!(moved.direction, Direction::Left);
    assert_eq!(moved.position, Position::new(8 * TILE - 288_000, 5 * TILE));
    // In a PvP game Blinky follows it.
    let moved = move_ghost(&maze, GameMode::PvP, g, &pac, start, 0, 0, 16_000);
    assert_eq!(moved.direction, Direction::Right);
    assert_eq!(moved.position, Position::new(8 * TILE + 288_000, 5 * TILE));
    // Pinky does not, in either game.
    g.ghost_type = GhostType::Pinky;
    let moved = move_ghost(&maze, GameMode::PvP, g, &pac, start, 0, 0, 16_000);
    assert_eq!(moved.direction, Direction::Left);
    // Nor does Blinky while frightened.
    g.ghost_type = GhostType::Blinky;
    g.mode = GhostMode::Frightened;
    let moved = move_ghost(&maze, GameMode::PvP, g, &pac, start, 0, 1, 16_000);
    assert_eq!(moved.direction, Direction::Left);
    assert_eq!(moved.position, Position::new(8 * TILE - 144_000, 5 * TILE));
}

#[test]
fn player_ghost_is_held_by_walls() {
    let maze = Maze::new();
    let pac = PacMan::new();
    // At (col 1, row 1) the border is to the left and above.
    let start = Position::at_tile(1, 1);
    let mut g = GhostEntity::new(GhostType::Blinky, start);
    g.direction = Direction::Left;
    g.next_direction = Direction::Up;
    let moved = move_ghost(&maze, GameMode::PvP, g, &pac, start, 0, 0, 16_000);
    assert_eq!(moved.position, start);
    assert_eq!(moved.direction, Direction::Left);
    g.next_direction = Direction::Down;
    let moved = move_ghost(&maze, GameMode::PvP, g, &pac, start, 0, 0, 16_000);
    assert_eq!(moved.position, Position::new(TILE, TILE + 288_000));
    assert_eq!(moved.direction, Direction::Down);
}

#[test]
fn eaten_ghost_revives_in_front_of_the_house() {
    let maze = Maze::new();
    let pac = PacMan::new();
    let start = Position::new(14 * TILE + 100_000, 11 * TILE);
    let mut g = GhostEntity::new(GhostType::Inky, start);
    g.direction = Direction::Left;
    g.mode = GhostMode::Eaten;
    // Without fright it takes up the scheduled mode; it still moves at the speed of an eaten ghost.
    let moved = move_ghost(&maze, GameMode::Classic, g, &pac, start, 1_000_000, 0, 1_000);
    assert_eq!(moved.mode, GhostMode::Scatter);
    assert_eq!(moved.position, Position::new(14 * TILE + 100_000 - 36_000, 11 * TILE));
    let moved = move_ghost(&maze, GameMode::Classic, g, &pac, start, 8_000_000, 0, 1_000);
    assert_eq!(moved.mode, GhostMode::Chase);
    // While the others are frightened it revives into Chase.
    let moved = move_ghost(&maze, GameMode::Classic, g, &pac, start, 1_000_000, 5, 1_000);
    assert_eq!(moved.mode, GhostMode::Chase);
    // Elsewhere it stays eaten.
    g.position = Position::at_tile(13, 11);
    let moved = move_ghost(&maze, GameMode::Classic, g, &pac, start, 1_000_000, 0, 1_000);
    assert_eq!(moved.mode, GhostMode::Eaten);
}

#[test]
fn revived_ghost_decides_as_a_live_one() {
    let maze = Maze::new();
    let pac = PacMan::new();
    // An eaten Inky reaches the center of (14, 11) from the right, and revives into Scatter.
    // Its target is then (27, 31), and the house below is closed to it: it goes on to the left.
    let start = Position::new(14 * TILE + 10_000, 11 * TILE);
    let mut g = GhostEntity::new(GhostType::Inky, start);
    g.direction = Direction::Left;
    g.mode = GhostMode::Eaten;
    let moved = move_ghost(&maze, GameMode::Classic, g, &pac, start, 0, 0, 1_000);
    assert_eq!(moved.mode, GhostMode::Scatter);
    assert_eq!(moved.position, Position::at_tile(14, 11));
    assert_eq!(moved.direction, Direction::Left);
}

#[test]
fn eaten_ghost_crosses_the_house() {
    let maze = Maze::new();
    let pac = PacMan::new();
    // At (col 14, row 13), inside the house, heading up for the entrance at (14, 11).
    let start = Position::new(14 * TILE, 13 * TILE + 10_000);
    let mut g = GhostEntity::new(GhostType::Pinky, start);
    g.mode = GhostMode::Eaten;
    let moved = move_ghost(&maze, GameMode::Classic, g, &pac, start, 0, 0, 1_000);
    assert_eq!(moved.position, Position::at_tile(14, 13));
    assert_eq!(moved.direction, Direction::Up);
    // A live ghost finds every side closed there and turns back.
    g.mode = GhostMode::Scatter;
    let moved = move_ghost(&maze, GameMode::Classic, g, &pac, start, 0, 0, 1_000);
    assert_eq!(moved.position, Position::at_tile(14, 13));
    assert_eq!(moved.direction, Direction::Down);
}

#[test]
fn ghost_wraps_through_the_tunnel() {
    let maze = Maze::new();
    let pac = PacMan::new();
    let start = Position::new(-900_000, 14 * TILE);
    let mut g = GhostEntity::new(GhostType::Clyde, start);
    g.direction = Direction::Left;
    let moved = move_ghost(&maze, GameMode::Classic, g, &pac, start, 0, 0, 16_000);
    assert_eq!(moved.position, Position::new(56_000_000 - 900_000 - 288_000, 14 * TILE));
    assert_eq!(moved.direction, Direction::Left);
}

#[test]
fn inky_sees_blinky_after_his_move() {
    let mut state = playing();
    state.global_timer = 10_000_000;
    for g in state.ghosts.iter_mut() {
        g.mode = GhostMode::Chase;
        g.position = Position::at_tile(26, 29);
    }
    // Pac-Man at (6, 10) facing up: the pivot is (6, 8).
    state.pacman.position = Position::at_tile(6, 10);
    state.pacman.direction = Direction::Up;
    state.pacman.next_direction = Direction::Up;
    // Blinky is about to pass from tile (2, 8) into tile (3, 8).
    state.ghosts[0].position = Position::new(2 * TILE + 900_000, 8 * TILE);
    state.ghosts[0].direction = Direction::Right;
    // Inky comes from the left into the center of (6, 5).
    state.ghosts[2].position = Position::new(6 * TILE - 100_000, 5 * TILE);
    state.ghosts[2].direction = Direction::Right;
    state.update_ghosts(16_000);
    assert_eq!(state.ghosts[0].position, Position::new(2 * TILE + 1_188_000, 8 * TILE));
    assert_eq!(state.ghosts[0].position.to_grid(), (3, 8));
    // With Blinky on (3, 8) the target is (9, 8): down (9 + 4) ties with right (4 + 9) and
    // comes first. With Blinky still on (2, 8) it would be (10, 8), and right (18) would
    // beat down (20).
    assert_eq!(state.ghosts[2].position, Position::at_tile(6, 5));
    assert_eq!(state.ghosts[2].direction, Direction::Down);
}

#[test]
fn check_collisions_eats_a_dot() {
    let mut state = playing();
    park_ghosts(&mut state);
    state.pacman.position = Position::new(TILE + 3, TILE - 2);
    state.check_collisions();
    assert_eq!(state.pacman.score, 10);
    assert_eq!(state.dots_remaining, 281);
    assert_eq!(state.maze.get_cell(1, 1), Some(CellType::Empty));
    assert_eq!(state.maze.dots_remaining(), 281);
    assert_eq!(state.frightened_timer, 0);
    assert_eq!(state.phase, GamePhase::Playing);
    // Nothing is left to eat there.
    state.check_collisions();
    assert_eq!(state.pacman.score, 10);
    assert_eq!(state.dots_remaining, 281);
}

#[test]
fn check_collisions_eats_a_power_pellet() {
    let mut state = playing();
    park_ghosts(&mut state);
    state.ghosts[1].mode = GhostMode::Eaten;
    state.ghosts[2].mode = GhostMode::Chase;
    state.ghosts[2].direction = Direction::Left;
    state.pacman.position = Position::at_tile(26, 23);
    state.check_collisions();
    assert_eq!(state.pacman.score, 50);
    assert_eq!(state.dots_remaining, 281);
    assert_eq!(state.maze.get_cell(23, 26), Some(CellType::Empty));
    assert_eq!(state.frightened_timer, FRIGHT_SPAN);
    assert_eq!(state.frightened_timer, 6_000_000);
    assert_eq!(state.ghosts[0].mode, GhostMode::Frightened);
    assert_eq!(state.ghosts[0].direction, Direction::Down);
    assert_eq!(state.ghosts[1].mode, GhostMode::Eaten);
    assert_eq!(state.ghosts[1].direction, Direction::Up);
    assert_eq!(state.ghosts[2].mode, GhostMode::Frightened);
    assert_eq!(state.ghosts[2].direction, Direction::Right);
    assert_eq!(state.ghosts[3].mode, GhostMode::Frightened);
}

#[test]
fn pacman_beside_the_grid_eats_nothing() {
    let mut state = playing();
    park_ghosts(&mut state);
    state.pacman.position = Position::new(-HALF_TILE, 14 * TILE);
    state.check_collisions();
    assert_eq!(state.pacman.score, 0);
    assert_eq!(state.dots_remaining, 282);
}

#[test]
fn frightened_ghost_is_eaten_on_contact() {
    let mut state = playing();
    park_ghosts(&mut state);
    state.pacman.position = Position::at_tile(11, 14);
    state.ghosts[3].position = Position::new(11 * TILE + 999_999, 14 * TILE);
    state.ghosts[3].mode = GhostMode::Frightened;
    state.check_collisions();
    assert_eq!(state.pacman.score, 200);
    assert_eq!(state.ghosts[3].mode, GhostMode::Eaten);
    assert_eq!(state.pacman.lives, 3);
    assert_eq!(state.phase, GamePhase::Playing);
    // Eaten, it does nothing more.
    state.check_collisions();
    assert_eq!(state.pacman.score, 200);
    assert_eq!(state.pacman.lives, 3);
}

#[test]
fn ghost_half_a_tile_away_does_not_touch() {
    let mut state = playing();
    park_ghosts(&mut state);
    state.pacman.position = Position::at_tile(11, 14);
    state.ghosts[0].position = Position::new(11 * TILE + HALF_TILE, 14 * TILE);
    state.ghosts[0].mode = GhostMode::Chase;
    state.check_collisions();
    assert_eq!(state.pacman.lives, 3);
    assert_eq!(state.phase, GamePhase::Playing);
}

#[test]
fn live_ghost_costs_a_life() {
    for mode in [GhostMode::Chase, GhostMode::Scatter] {
        let mut state = playing();
        park_ghosts(&mut state);
        state.pacman.position = Position::at_tile(11, 14);
        state.ghosts[1].position = Position::at_tile(11, 14);
        state.ghosts[1].mode = mode;
        state.check_collisions();
        assert_eq!(state.pacman.lives, 2);
        assert_eq!(state.phase, GamePhase::Paused);
        assert_eq!(state.ghosts[1].mode, mode);
        assert_eq!(state.pacman.score, 0);
    }
}

#[test]
fn last_life_ends_the_game() {
    let mut state = playing();
    park_ghosts(&mut state);
    state.pacman.lives = 1;
    state.pacman.position = Position::at_tile(11, 14);
    state.ghosts[0].position = Position::at_tile(11, 14);
    state.check_collisions();
    assert_eq!(state.pacman.lives, 0);
    assert_eq!(state.phase, GamePhase::GameOver);
    assert!(state.is_game_over());
}

#[test]
fn no_life_left_stays_at_zero() {
    let mut state = playing();
    park_ghosts(&mut state);
    state.pacman.lives = 0;
    state.pacman.position = Position::at_tile(11, 14);
    state.ghosts[0].position = Position::at_tile(11, 14);
    state.check_collisions();
    assert_eq!(state.pacman.lives, 0);
    assert_eq!(state.phase, GamePhase::GameOver);
}

#[test]
fn only_one_life_is_lost_per_tick() {
    let mut state = playing();
    state.pacman.position = Position::at_tile(11, 14);
    for g in state.ghosts.iter_mut() {
        g.position = Position::at_tile(11, 14);
    }
    state.ghosts[0].mode = GhostMode::Frightened;
    state.ghosts[3].mode = GhostMode::Frightened;
    state.check_collisions();
    // Blinky is eaten, Pinky costs the life, and the pass ends there.
    assert_eq!(state.pacman.lives, 2);
    assert_eq!(state.pacman.score, 200);
    assert_eq!(state.ghosts[0].mode, GhostMode::Eaten);
    assert_eq!(state.ghosts[3].mode, GhostMode::Frightened);
    assert_eq!(state.phase, GamePhase::Paused);
}

#[test]
fn pellet_frightens_before_the_contact_counts() {
    let mut state = playing();
    park_ghosts(&mut state);
    state.pacman.position = Position::at_tile(1, 3);
    state.ghosts[2].position = Position::at_tile(1, 3);
    state.check_collisions();
    assert_eq!(state.pacman.score, 250);
    assert_eq!(state.ghosts[2].mode, GhostMode::Eaten);
    assert_eq!(state.pacman.lives, 3);
    assert_eq!(state.frightened_timer, 6_000_000);
}

#[test]
fn last_dot_pauses_the_game() {
    let mut state = playing();
    park_ghosts(&mut state);
    for r in 0..MAZE_HEIGHT {
        for c in 0..MAZE_WIDTH {
            let cell = state.maze.cells[r][c];
            if (r, c) != (1, 1) && (cell == CellType::Dot || cell == CellType::PowerPellet) {
                state.maze.consume(r, c);
            }
        }
    }
    state.dots_remaining = state.maze.dots_remaining();
    assert_eq!(state.dots_remaining, 1);
    state.pacman.position = Position::at_tile(1, 1);
    state.check_collisions();
    assert_eq!(state.dots_remaining, 0);
    assert!(state.is_level_complete());
    assert_eq!(state.phase, GamePhase::Paused);
    assert_eq!(state.pacman.score, 10);
}

#[test]
fn tick_runs_the_stages_in_order() {
    let mut by_tick = playing();
    by_tick.global_timer = 6_990_000;
    let mut by_stage = by_tick.clone();
    by_tick.tick(16_000);
    by_stage.update_timers(16_000);
    by_stage.update_pacman(22 * 16_000);
    by_stage.update_ghosts(16_000);
    by_stage.check_collisions();
    assert_eq!(format!("{:?}", by_tick), format!("{:?}", by_stage));
    // The schedule changed on this tick: Blinky turned back before he moved.
    assert_eq!(by_tick.ghosts[0].mode, GhostMode::Chase);
    assert_eq!(by_tick.ghosts[0].direction, Direction::Down);
    assert_eq!(by_tick.ghosts[0].position, Position::new(14 * TILE, 11 * TILE + 288_000));
}

#[test]
fn equal_games_stay_equal() {
    let mut a = playing();
    let mut b = playing();
    let inputs = [Direction::Left, Direction::Up, Direction::Right, Direction::Down];
    for step in 0..600 {
        if step % 40 == 0 {
            let d = inputs[(step / 40) % 4];
            a.pacman.next_direction = d;
            b.pacman.next_direction = d;
        }
        a.tick(16_667);
        b.tick(16_667);
        assert_eq!(format!("{:?}", a), format!("{:?}", b));
    }
    assert!(a.global_timer > 0);
}

#[test]
fn invariants_hold_along_a_game() {
    let mut state = playing();
    let inputs = [Direction::Left, Direction::Up, Direction::Right, Direction::Down, Direction::Left];
    for step in 0..3000 {
        if step % 25 == 0 {
            state.pacman.next_direction = inputs[(step / 25) % 5];
        }
        if state.phase == GamePhase::Paused {
            state.phase = GamePhase::Playing;
        }
        state.tick(16_000);
        assert_eq!(state.dots_remaining, state.maze.dots_remaining());
        assert_eq!(state.ghosts.len(), 4);
        let types: Vec<GhostType> = state.ghosts.iter().map(|g| g.ghost_type).collect();
        assert_eq!(types, vec![GhostType::Blinky, GhostType::Pinky, GhostType::Inky, GhostType::Clyde]);
        assert!(state.pacman.lives <= 3);
        if state.phase == GamePhase::GameOver {
            assert_eq!(state.pacman.lives, 0);
        }
        let p = state.pacman.position;
        assert!(-HALF_TILE <= p.x && p.x < 28 * TILE - HALF_TILE);
        assert!(0 <= p.y && p.y < 31 * TILE);
        assert!(state.maze.is_walkable(p.x, p.y));
    }
}

#[test]
fn short_steps_keep_pacman_off_the_walls() {
    // Half a tile left of the first column, in the tunnel, asked to turn down.
    let mut state = playing();
    park_ghosts(&mut state);
    state.pacman.position = Position::new(-HALF_TILE, 14 * TILE);
    state.pacman.next_direction = Direction::Down;
    // 22 units a microsecond: 45_454 microseconds fall just short of half a tile.
    state.tick(45_454);
    assert_eq!(state.pacman.direction, Direction::Left);
    assert_eq!(state.pacman.position, Position::new(56_000_000 - HALF_TILE - 999_988, 14 * TILE));
    assert_eq!(state.pacman.position.to_grid(), (27, 14));
    assert!(state.maze.is_walkable(state.pacman.position.x, state.pacman.position.y));
}

#[test]
fn a_step_of_half_a_tile_can_end_in_a_wall() {
    let mut state = playing();
    park_ghosts(&mut state);
    state.pacman.position = Position::new(-HALF_TILE, 14 * TILE);
    state.pacman.next_direction = Direction::Down;
    // One microsecond more and the step reaches the center beside the grid: the turn is
    // taken there, and the tunnel puts Pac-Man below the right end of the tunnel row.
    state.tick(45_455);
    assert_eq!(state.pacman.direction, Direction::Down);
    assert_eq!(state.pacman.position, Position::new(27 * TILE, 14 * TILE + 1_000_010));
    assert_eq!(state.pacman.position.to_grid(), (27, 15));
    assert!(!state.maze.is_walkable(state.pacman.position.x, state.pacman.position.y));
}

#[test]
fn ghost_on_a_center_goes_on_into_a_wall() {
    // Blinky starts on the center of (14, 11), facing the wall above it.
    let mut state = playing();
    assert_eq!(state.maze.get_cell(10, 14), Some(CellType::Wall));
    for _ in 0..4 {
        state.tick(16_000);
    }
    assert_eq!(state.ghosts[0].direction, Direction::Up);
    assert_eq!(state.ghosts[0].position, Position::new(14 * TILE, 11 * TILE - 4 * 288_000));
    assert_eq!(state.ghosts[0].position.to_grid(), (14, 10));
    // At the center of that tile it decides: right is the one open way.
    for _ in 0..4 {
        state.tick(16_000);
    }
    assert_eq!(state.ghosts[0].position, Position::new(14 * TILE + 288_000, 10 * TILE));
    assert_eq!(state.ghosts[0].direction, Direction::Right);
}

#[test]
fn ghost_on_the_top_row_can_leave_the_grid() {
    let mut state = playing();
    state.ghosts[1].position = Position::at_tile(1, 0);
    state.tick(16_000);
    assert_eq!(state.ghosts[1].position, Position::new(TILE, -288_000));
    // Its x stays within the span of the tunnel all the same.
    for g in &state.ghosts {
        assert!(-HALF_TILE <= g.position.x && g.position.x < 28 * TILE - HALF_TILE);
    }
}

#[test]
fn ghosts_keep_to_the_lines_along_a_game() {
    let mut state = playing();
    let inputs = [Direction::Left, Direction::Up, Direction::Right, Direction::Down, Direction::Left];
    for step in 0..3000 {
        if step % 25 == 0 {
            state.pacman.next_direction = inputs[(step / 25) % 5];
        }
        if state.phase == GamePhase::Paused {
            state.phase = GamePhase::Playing;
        }
        state.tick(16_000);
        for g in &state.ghosts {
            assert!(-HALF_TILE <= g.position.x && g.position.x < 28 * TILE - HALF_TILE);
            match g.direction {
                Direction::Up | Direction::Down => assert_eq!(g.position.x % TILE, 0),
                Direction::Left | Direction::Right => assert_eq!(g.position.y % TILE, 0),
            }
        }
    }
}

#[test]
fn can_tick_tells_the_limits() {
    let mut state = playing();
    assert!(state.can_tick(0));
    assert!(state.can_tick(16_000));
    assert!(state.can_tick(1_000_000_000_000));
    assert!(!state.can_tick(1_000_000_000_001));
    state.global_timer = u64::MAX - 16_000;
    assert!(state.can_tick(16_000));
    assert!(!state.can_tick(16_001));
    state.global_timer = 0;
    state.pacman.score = u32::MAX - 850;
    assert!(state.can_tick(16_000));
    state.pacman.score = u32::MAX - 849;
    assert!(!state.can_tick(16_000));
    state.pacman.score = 0;
    state.pacman.position = Position::new(1_000_000_000_000_000_000, -1_000_000_000_000_000_000);
    assert!(state.can_tick(16_000));
    state.pacman.position = Position::new(1_000_000_000_000_000_001, 0);
    assert!(!state.can_tick(16_000));
    state.pacman.position = Position::at_tile(14, 23);
    state.ghosts[3].position = Position::new(0, -1_000_000_000_000_000_001);
    assert!(!state.can_tick(16_000));
    state.ghosts[3].position = Position::new(0, -1_000_000_000_000_000_000);
    assert!(state.can_tick(16_000));
}

#[test]
fn tick_at_the_limits_stays_exact() {
    let mut state = playing();
    park_ghosts(&mut state);
    state.global_timer = u64::MAX - 1_000_000_000_000;
    state.pacman.score = u32::MAX - 850;
    state.pacman.position = Position::new(-1_000_000_000_000_000_000, 1_000_000_000_000_000_000);
    state.pacman.direction = Direction::Left;
    state.ghosts[2].position = Position::new(1_000_000_000_000_000_000, 1_000_000_000_000_000_000);
    state.ghosts[2].direction = Direction::Down;
    state.ghosts[2].mode = GhostMode::Eaten;
    assert!(state.can_tick(1_000_000_000_000));
    state.tick(1_000_000_000_000);
    assert_eq!(state.global_timer, u64::MAX);
    // Far left of the grid Pac-Man is carried one width of the maze to the right.
    assert_eq!(
        state.pacman.position,
        Position::new(-1_000_000_000_000_000_000 - 22_000_000_000_000 + 56_000_000, 1_000_000_000_000_000_000)
    );
    assert_eq!(
        state.ghosts[2].position,
        Position::new(1_000_000_000_000_000_000 - 56_000_000, 1_000_000_000_000_000_000 + 36_000_000_000_000)
    );
}

#[test]
fn a_very_long_step_leaves_the_span() {
    // Four seconds carry Pac-Man 88 tiles: the tunnel takes him back by one width of the
    // maze only, and he ends up left of the span.
    let mut state = playing();
    park_ghosts(&mut state);
    state.tick(4_000_000);
    assert_eq!(state.pacman.position, Position::new(14 * TILE - 88_000_000 + 56_000_000, 23 * TILE));
    assert!(state.pacman.position.x < -HALF_TILE);
}
