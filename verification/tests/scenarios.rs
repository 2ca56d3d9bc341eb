use pacman_engine::entities::{Direction, GhostMode, Position, TILE};
use pacman_engine::maze::CellType;
use pacman_engine::state::{GameMode, GamePhase, GameStateInner};
use pacman_engine::GameState;

/// Seconds of a time in microseconds.
fn seconds(micros: u64) -> f64 {
    micros as f64 / 1_000_000.0
}

/// Ticks of 16 ms with Pac-Man sent in `dir`, until he stands on `tile`, a
/// margin of at most a step from its center.
fn drive(game: &mut GameStateInner, dir: Direction, tile: (i64, i64)) {
    game.pacman.next_direction = dir;
    for _ in 0..2000 {
        let p = game.pacman.position;
        let dx = (p.x - tile.0 * TILE).abs();
        let dy = (p.y - tile.1 * TILE).abs();
        if dx <= 352_000 && dy <= 352_000 {
            return;
        }
        game.tick(16_000);
        assert_eq!(game.phase, GamePhase::Playing);
    }
    panic!("Pac-Man did not reach {:?}", tile);
}

#[test]
fn fresh_game() {
    let gs = GameState::create("classic").unwrap();
    assert_eq!(gs.get_phase(), "ready");
    let state = gs.snapshot();
    assert_eq!(state.pacman.lives, 3);
    assert_eq!(state.pacman.score, 0);
    assert_eq!(state.ghosts.len(), 4);
    assert_eq!(state.level, 1);
    assert_eq!(state.dots_remaining, state.maze.dots_remaining());
}

#[test]
fn start_on_input() {
    let mut gs = GameState::create("classic").unwrap();
    gs.set_direction("left");
    assert_eq!(gs.get_phase(), "playing");
}

#[test]
fn dot_pickup() {
    let mut gs = GameState::create("classic").unwrap();
    gs.set_direction("left");
    let mut landed = false;
    for _ in 0..20 {
        let before = gs.snapshot();
        gs.tick(16_000);
        let after = gs.snapshot();
        if before.pacman.position.to_grid() != (13, 23) && after.pacman.position.to_grid() == (13, 23) {
            assert_eq!(before.maze.get_cell(23, 13), Some(CellType::Dot));
            assert_eq!(after.pacman.score, before.pacman.score + 10);
            assert_eq!(after.maze.get_cell(23, 13), Some(CellType::Empty));
            assert_eq!(after.dots_remaining, before.dots_remaining - 1);
            landed = true;
            break;
        }
    }
    assert!(landed);
}

#[test]
fn power_pellet() {
    let mut game = GameStateInner::new(GameMode::Classic);
    game.phase = GamePhase::Playing;
    // Along row 23 to column 6, up to row 5, left to column 1, up to the pellet on row 3.
    drive(&mut game, Direction::Left, (6, 23));
    drive(&mut game, Direction::Up, (6, 5));
    drive(&mut game, Direction::Left, (1, 5));
    game.pacman.next_direction = Direction::Up;
    let mut eaten = false;
    for _ in 0..100 {
        let score = game.pacman.score;
        let had = game.maze.get_cell(3, 1);
        game.tick(16_000);
        if had == Some(CellType::PowerPellet) && game.maze.get_cell(3, 1) == Some(CellType::Empty) {
            assert_eq!(game.pacman.position.to_grid(), (1, 3));
            assert_eq!(game.pacman.score, score + 50);
            for g in &game.ghosts {
                assert_eq!(g.mode, GhostMode::Frightened);
            }
            assert!((seconds(game.frightened_timer) - 6.0).abs() < 1e-9);
            eaten = true;
            break;
        }
    }
    assert!(eaten);
    // The fright then runs down with the clock, and the global clock stands still.
    let clock = game.global_timer;
    game.tick(16_000);
    assert_eq!(game.frightened_timer, 6_000_000 - 16_000);
    assert_eq!(game.global_timer, clock);
}

#[test]
fn frightened_kill() {
    let mut game = GameStateInner::new(GameMode::Classic);
    game.phase = GamePhase::Playing;
    game.frightened_timer = 3_000_000;
    // A frightened Clyde a third of a tile ahead of Pac-Man, coming his way on row 23.
    game.pacman.position = Position::at_tile(10, 23);
    game.ghosts[3].position = Position::new(10 * TILE - 666_000, 23 * TILE);
    game.ghosts[3].direction = Direction::Right;
    game.ghosts[3].mode = GhostMode::Frightened;
    let score = game.pacman.score;
    game.tick(1_000);
    // The tick also eats the dot under Pac-Man.
    assert_eq!(game.pacman.score, score + 200 + 10);
    assert_eq!(game.ghosts[3].mode, GhostMode::Eaten);
    assert_eq!(game.pacman.lives, 3);
    assert_eq!(game.phase, GamePhase::Playing);
}

#[test]
fn lethal_collision() {
    let mut game = GameStateInner::new(GameMode::Classic);
    game.phase = GamePhase::Playing;
    game.global_timer = 10_000_000;
    for g in game.ghosts.iter_mut() {
        g.mode = GhostMode::Chase;
    }
    game.pacman.position = Position::at_tile(10, 23);
    game.ghosts[0].position = Position::new(10 * TILE - 666_000, 23 * TILE);
    game.ghosts[0].direction = Direction::Right;
    game.tick(1_000);
    assert_eq!(game.pacman.lives, 2);
    assert_eq!(game.phase, GamePhase::Paused);
    assert_eq!(game.ghosts[0].mode, GhostMode::Chase);

    // With one life left the same meeting ends the game.
    game.phase = GamePhase::Playing;
    game.pacman.lives = 1;
    game.tick(1_000);
    assert_eq!(game.pacman.lives, 0);
    assert_eq!(game.phase, GamePhase::GameOver);
    // And then nothing moves any more.
    let before = format!("{:?}", game);
    game.tick(16_000);
    assert_eq!(format!("{:?}", game), before);
}

#[test]
fn invalid_mode() {
    let made = GameState::create("arcade");
    let message = made.unwrap_err();
    assert!(message.contains("arcade"));
    assert_eq!(message, "Invalid game mode: 'arcade'. Use 'classic' or 'pvp'.");
}
