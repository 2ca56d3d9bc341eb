use pacman_engine::entities::{HALF_TILE, TILE};
use pacman_engine::maze::{cell_from_char, CellType, Maze, CLASSIC_LAYOUT, MAZE_HEIGHT, MAZE_WIDTH, TUNNEL_ROW};

#[test]
fn maze_has_correct_dimensions() {
    let maze = Maze::new();
    assert_eq!(maze.height, MAZE_HEIGHT);
    assert_eq!(maze.width, MAZE_WIDTH);
    assert_eq!(maze.cells.len(), MAZE_HEIGHT);
    for (i, row) in maze.cells.iter().enumerate() {
        assert_eq!(
            row.len(),
            MAZE_WIDTH,
            "Row {} has {} cells, expected {}",
            i,
            row.len(),
            MAZE_WIDTH
        );
    }
}

#[test]
fn maze_corners_are_walls() {
    let maze = Maze::new();
    assert_eq!(maze.get_cell(0, 0), Some(CellType::Wall));
    assert_eq!(maze.get_cell(0, MAZE_WIDTH - 1), Some(CellType::Wall));
    assert_eq!(maze.get_cell(MAZE_HEIGHT - 1, 0), Some(CellType::Wall));
    assert_eq!(
        maze.get_cell(MAZE_HEIGHT - 1, MAZE_WIDTH - 1),
        Some(CellType::Wall)
    );
}

#[test]
fn maze_has_dots() {
    let maze = Maze::new();
    assert!(maze.dots_remaining() > 0, "Maze should contain dots");
}

#[test]
fn maze_has_power_pellets() {
    let maze = Maze::new();
    let pellet_count = maze
        .cells
        .iter()
        .flat_map(|row| row.iter())
        .filter(|cell| **cell == CellType::PowerPellet)
        .count();
    assert_eq!(pellet_count, 4, "Classic maze should have 4 power pellets");
}

#[test]
fn maze_has_ghost_house() {
    let maze = Maze::new();
    let ghost_cells = maze
        .cells
        .iter()
        .flat_map(|row| row.iter())
        .filter(|cell| **cell == CellType::GhostHouse)
        .count();
    assert!(ghost_cells > 0, "Maze should have a ghost house");
}

#[test]
fn get_cell_out_of_bounds_returns_none() {
    let maze = Maze::new();
    assert_eq!(maze.get_cell(100, 100), None);
}

#[test]
fn get_cell_is_none_just_outside() {
    let maze = Maze::new();
    assert_eq!(maze.get_cell(MAZE_HEIGHT, 0), None);
    assert_eq!(maze.get_cell(0, MAZE_WIDTH), None);
    assert_eq!(maze.get_cell(MAZE_HEIGHT - 1, MAZE_WIDTH - 1), Some(CellType::Wall));
}

#[test]
fn maze_counts_282_dots_and_pellets() {
    let maze = Maze::new();
    assert_eq!(maze.dots_remaining(), 282);
    let by_hand = maze
        .cells
        .iter()
        .flat_map(|row| row.iter())
        .filter(|cell| **cell == CellType::Dot || **cell == CellType::PowerPellet)
        .count();
    assert_eq!(by_hand, 282);
}

#[test]
fn maze_follows_the_layout() {
    let maze = Maze::new();
    for (r, text) in CLASSIC_LAYOUT.iter().enumerate() {
        assert_eq!(text.chars().count(), MAZE_WIDTH);
        for (c, ch) in text.chars().enumerate() {
            assert_eq!(maze.get_cell(r, c), Some(cell_from_char(ch)), "at row {} col {}", r, c);
        }
    }
}

#[test]
fn layout_characters_read_as_cells() {
    assert_eq!(cell_from_char('W'), CellType::Wall);
    assert_eq!(cell_from_char('.'), CellType::Dot);
    assert_eq!(cell_from_char('o'), CellType::PowerPellet);
    assert_eq!(cell_from_char('G'), CellType::GhostHouse);
    assert_eq!(cell_from_char('E'), CellType::Empty);
    assert_eq!(cell_from_char('?'), CellType::Empty);
}

#[test]
fn power_pellets_sit_in_the_corners() {
    let maze = Maze::new();
    assert_eq!(maze.get_cell(3, 1), Some(CellType::PowerPellet));
    assert_eq!(maze.get_cell(3, 26), Some(CellType::PowerPellet));
    assert_eq!(maze.get_cell(23, 1), Some(CellType::PowerPellet));
    assert_eq!(maze.get_cell(23, 26), Some(CellType::PowerPellet));
}

#[test]
fn border_is_wall_but_for_the_tunnel() {
    let maze = Maze::new();
    for c in 0..MAZE_WIDTH {
        assert_eq!(maze.get_cell(0, c), Some(CellType::Wall));
        assert_eq!(maze.get_cell(MAZE_HEIGHT - 1, c), Some(CellType::Wall));
    }
    for r in 0..MAZE_HEIGHT {
        if r == TUNNEL_ROW {
            assert_eq!(maze.get_cell(r, 0), Some(CellType::Empty));
            assert_eq!(maze.get_cell(r, MAZE_WIDTH - 1), Some(CellType::Empty));
        } else {
            assert_eq!(maze.get_cell(r, 0), Some(CellType::Wall));
            assert_eq!(maze.get_cell(r, MAZE_WIDTH - 1), Some(CellType::Wall));
        }
    }
}

#[test]
fn walls_and_ghost_house_are_not_walkable() {
    let maze = Maze::new();
    // (col 0, row 0) is a wall, (col 1, row 1) a dot, (col 13, row 13) ghost house.
    assert!(!maze.is_walkable(0, 0));
    assert!(maze.is_walkable(TILE, TILE));
    assert!(!maze.is_walkable(13 * TILE, 13 * TILE));
    assert!(!maze.walkable_tile(13, 13, false));
    assert!(maze.walkable_tile(13, 13, true));
    assert!(!maze.walkable_tile(0, 0, true));
    // (col 11, row 13) is empty.
    assert!(maze.walkable_tile(11, 13, false));
}

#[test]
fn is_walkable_rounds_to_the_nearest_tile() {
    let maze = Maze::new();
    // Just short of half a tile right of the wall at column 0, row 1.
    assert!(!maze.is_walkable(HALF_TILE - 1, TILE));
    // Half a tile on, the dot at column 1 is meant.
    assert!(maze.is_walkable(HALF_TILE, TILE));
}

#[test]
fn outside_the_columns_is_walkable() {
    let maze = Maze::new();
    assert!(maze.is_walkable(-TILE, 14 * TILE));
    assert!(maze.is_walkable(28 * TILE, 14 * TILE));
    assert!(maze.walkable_tile(-1, 0, false));
    assert!(maze.walkable_tile(28, 500, false));
    assert!(maze.walkable_tile(-1, -5, false));
}

#[test]
fn above_and_below_the_grid_is_not_walkable() {
    let maze = Maze::new();
    assert!(!maze.is_walkable(5 * TILE, -TILE));
    assert!(!maze.is_walkable(5 * TILE, 31 * TILE));
    assert!(!maze.walkable_tile(5, -1, true));
    assert!(!maze.walkable_tile(5, 31, true));
    assert!(!maze.walkable_tile(5, i64::MAX, true));
}

#[test]
fn consume_empties_one_cell() {
    let mut maze = Maze::new();
    let before = maze.dots_remaining();
    assert_eq!(maze.get_cell(1, 1), Some(CellType::Dot));
    maze.consume(1, 1);
    assert_eq!(maze.get_cell(1, 1), Some(CellType::Empty));
    assert_eq!(maze.dots_remaining(), before - 1);
    assert_eq!(maze.get_cell(1, 2), Some(CellType::Dot));
    assert_eq!(maze.get_cell(0, 1), Some(CellType::Wall));
    // An empty cell stays empty and the count stays.
    maze.consume(1, 1);
    assert_eq!(maze.get_cell(1, 1), Some(CellType::Empty));
    assert_eq!(maze.dots_remaining(), before - 1);
}
