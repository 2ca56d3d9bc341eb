use pacman_engine::entities::{
    nearest_tile, Direction, GhostEntity, GhostMode, GhostType, PacMan, Position, HALF_TILE, TILE,
};

/// Position units of a coordinate given in tiles.
fn tiles(v: f64) -> i64 {
    (v * TILE as f64).round() as i64
}

#[test]
fn pacman_starts_with_correct_defaults() {
    let pac = PacMan::new();
    assert_eq!(pac.lives, 3);
    assert_eq!(pac.score, 0);
    assert_eq!(pac.direction, Direction::Left);
}

#[test]
fn pacman_starting_position() {
    let pac = PacMan::new();
    let (col, row) = pac.position.to_grid();
    assert_eq!(col, 14);
    assert_eq!(row, 23);
}

#[test]
fn create_all_ghosts_returns_four() {
    let ghosts = GhostEntity::create_all();
    assert_eq!(ghosts.len(), 4);
}

#[test]
fn ghosts_have_correct_types() {
    let ghosts = GhostEntity::create_all();
    assert_eq!(ghosts[0].ghost_type, GhostType::Blinky);
    assert_eq!(ghosts[1].ghost_type, GhostType::Pinky);
    assert_eq!(ghosts[2].ghost_type, GhostType::Inky);
    assert_eq!(ghosts[3].ghost_type, GhostType::Clyde);
}

#[test]
fn ghosts_start_in_scatter_mode() {
    let ghosts = GhostEntity::create_all();
    for ghost in &ghosts {
        assert_eq!(ghost.mode, GhostMode::Scatter);
    }
}

#[test]
fn position_to_grid_rounds_correctly() {
    let pos = Position::new(tiles(13.7), tiles(22.3));
    let (col, row) = pos.to_grid();
    assert_eq!(col, 14);
    assert_eq!(row, 22);
}

#[test]
fn pacman_default_is_new() {
    assert_eq!(PacMan::default(), PacMan::new());
    assert_eq!(PacMan::new().next_direction, Direction::Left);
    assert_eq!(PacMan::new().position, Position::new(14 * TILE, 23 * TILE));
}

#[test]
fn ghosts_spawn_on_their_tiles_facing_up() {
    let ghosts = GhostEntity::create_all();
    let tiles_expected = [(14, 11), (12, 14), (14, 14), (16, 14)];
    for (ghost, tile) in ghosts.iter().zip(tiles_expected.iter()) {
        assert_eq!(ghost.position.to_grid(), *tile);
        assert_eq!(ghost.position, Position::at_tile(tile.0, tile.1));
        assert_eq!(ghost.direction, Direction::Up);
        assert_eq!(ghost.next_direction, Direction::Up);
    }
}

#[test]
fn ghost_new_keeps_type_and_position() {
    let g = GhostEntity::new(GhostType::Inky, Position::new(5, -7));
    assert_eq!(g.ghost_type, GhostType::Inky);
    assert_eq!(g.position, Position { x: 5, y: -7 });
    assert_eq!(g.mode, GhostMode::Scatter);
}

#[test]
fn opposite_swaps_each_pair() {
    assert_eq!(Direction::Up.opposite(), Direction::Down);
    assert_eq!(Direction::Down.opposite(), Direction::Up);
    assert_eq!(Direction::Left.opposite(), Direction::Right);
    assert_eq!(Direction::Right.opposite(), Direction::Left);
}

#[test]
fn to_vector_is_the_unit_vector() {
    assert_eq!(Direction::Up.to_vector(), (0, -1));
    assert_eq!(Direction::Down.to_vector(), (0, 1));
    assert_eq!(Direction::Left.to_vector(), (-1, 0));
    assert_eq!(Direction::Right.to_vector(), (1, 0));
}

#[test]
fn nearest_tile_rounds_halves_away_from_zero() {
    assert_eq!(nearest_tile(0), 0);
    assert_eq!(nearest_tile(HALF_TILE - 1), 0);
    assert_eq!(nearest_tile(HALF_TILE), 1);
    assert_eq!(nearest_tile(TILE + HALF_TILE), 2);
    assert_eq!(nearest_tile(-HALF_TILE + 1), 0);
    assert_eq!(nearest_tile(-HALF_TILE), -1);
    assert_eq!(nearest_tile(-TILE - HALF_TILE), -2);
    assert_eq!(nearest_tile(-TILE - HALF_TILE + 1), -1);
    assert_eq!(nearest_tile(27 * TILE + HALF_TILE - 1), 27);
}

#[test]
fn nearest_tile_agrees_with_float_rounding() {
    let samples = [-3.5, -2.51, -0.5, -0.49, 0.0, 0.49, 0.5, 1.5, 2.5, 13.7, 22.3, 27.49];
    for v in samples {
        assert_eq!(nearest_tile(tiles(v)), v.round() as i64, "at {}", v);
    }
}

#[test]
fn nearest_tile_takes_the_extremes() {
    assert_eq!(nearest_tile(i64::MAX), 4_611_686_018_427);
    assert_eq!(nearest_tile(i64::MIN), -4_611_686_018_427);
}
