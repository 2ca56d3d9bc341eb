//! The maze: a dense 28 x 31 grid of cells.
//!
//! The grid has two layers. Walls, the ghost house and the empty corridors
//! never change; dots and power pellets turn into `Empty` when eaten.

use vstd::prelude::*;
use vstd::string::*;
use crate::entities::{nearest_tile, Point, Tile};

verus! {

// ─── Cell types ─────────────────────────────────────────────────────────────

/// What occupies one tile of the maze.
#[derive(Clone, Copy, Debug, PartialEq, Eq, Structural)]
pub enum CellType {
    Empty,
    Wall,
    Dot,
    PowerPellet,
    GhostHouse,
}

impl CellType {
    /// True of the two kinds of cell that Pac-Man eats.
    pub open spec fn is_consumable(self) -> bool {
        self == CellType::Dot || self == CellType::PowerPellet
    }
}

// ─── Maze dimensions ────────────────────────────────────────────────────────

/// Number of columns of the maze.
pub const MAZE_WIDTH: usize = 28;

/// Number of rows of the maze.
pub const MAZE_HEIGHT: usize = 31;

/// The row whose two ends are open and joined by the tunnel.
pub const TUNNEL_ROW: usize = 14;

// ─── The classic layout ─────────────────────────────────────────────────────

/// The classic layout, one string per row from the top.
///
/// `W` is a wall, `.` a dot, `o` a power pellet, `G` the ghost house and `E`
/// an empty tile.
pub const CLASSIC_LAYOUT: [&'static str; 31] = [
    "WWWWWWWWWWWWWWWWWWWWWWWWWWWW",  // 0
    "W............WW............W",  // 1
    "W.WWWW.WWWWW.WW.WWWWW.WWWWWW",  // 2
    "WoWWWW.WWWWW.WW.WWWWW.WWWWoW",  // 3
    "W.WWWW.WWWWW.WW.WWWWW.WWWWWW",  // 4
    "W..........................W",  // 5
    "W.WWWW.WW.WWWWWWWW.WW.WWWWWW",  // 6
    "W.WWWW.WW.WWWWWWWW.WW.WWWWWW",  // 7
    "W......WW....WW....WW......W",  // 8
    "WWWWWW.WWWWW.WW.WWWWW.WWWWWW",  // 9
    "WEEEWW.WWWWW.WW.WWWWW.WWEEEW",  // 10
    "WEEEWW.WW..........WW.WWEEEW",  // 11
    "WEEEWW.WW.WWWGGWWW.WW.WWEEEW",  // 12
    "WWWWWW.WW.WEGGGGEW.WW.WWWWWW",  // 13
    "EEEEEE....WEGGGGEW....EEEEEE",  // 14
    "WWWWWW.WW.WEGGGGEW.WW.WWWWWW",  // 15
    "WEEEWW.WW.WWWWWWWW.WW.WWEEEW",  // 16
    "WEEEWW.WW..........WW.WWEEEW",  // 17
    "WEEEWW.WW.WWWWWWWW.WW.WWEEEW",  // 18
    "WWWWWW.WW.WWWWWWWW.WW.WWWWWW",  // 19
    "W............WW............W",  // 20
    "W.WWWW.WWWWW.WW.WWWWW.WWWWWW",  // 21
    "W.WWWW.WWWWW.WW.WWWWW.WWWWWW",  // 22
    "Wo..WW................WW..oW",  // 23
    "WWW.WW.WW.WWWWWWWW.WW.WW.WWW",  // 24
    "WWW.WW.WW.WWWWWWWW.WW.WW.WWW",  // 25
    "W......WW....WW....WW......W",  // 26
    "W.WWWWWWWWWW.WW.WWWWWWWWWW.W",  // 27
    "W.WWWWWWWWWW.WW.WWWWWWWWWW.W",  // 28
    "W..........................W",  // 29
    "WWWWWWWWWWWWWWWWWWWWWWWWWWWW",  // 30
];

/// The cell that a character of the layout stands for. Anything that is not
/// one of `W`, `.`, `o`, `G` reads as `Empty`.
pub open spec fn cell_of_char(ch: char) -> CellType {
    if ch == 'W' {
        CellType::Wall
    } else if ch == '.' {
        CellType::Dot
    } else if ch == 'o' {
        CellType::PowerPellet
    } else if ch == 'G' {
        CellType::GhostHouse
    } else {
        CellType::Empty
    }
}

/// The cell at `(col, row)` of the classic layout. A row of the layout that is
/// shorter than the maze is wide is filled up with `Empty`.
pub open spec fn classic_cell(col: int, row: int) -> CellType {
    let text = CLASSIC_LAYOUT@[row]@;
    if col < text.len() {
        cell_of_char(text[col])
    } else {
        CellType::Empty
    }
}

/// The grid of a fresh maze: `classic_grid()[row][col]`.
pub open spec fn classic_grid() -> Seq<Seq<CellType>> {
    Seq::new(MAZE_HEIGHT as nat, |row: int| Seq::new(MAZE_WIDTH as nat, |col: int| classic_cell(col, row)))
}

// ─── Grids ──────────────────────────────────────────────────────────────────

/// A grid has the maze's dimensions: 31 rows of 28 cells.
pub open spec fn grid_wf(grid: Seq<Seq<CellType>>) -> bool {
    &&& grid.len() == MAZE_HEIGHT
    &&& forall|row: int| 0 <= row < grid.len() ==> (#[trigger] grid[row]).len() == MAZE_WIDTH
}

/// The cell at a tile, or `None` where the tile lies outside the grid.
pub open spec fn grid_cell(grid: Seq<Seq<CellType>>, tile: Tile) -> Option<CellType> {
    if 0 <= tile.row < grid.len() && 0 <= tile.col < grid[tile.row].len() {
        Some(grid[tile.row][tile.col])
    } else {
        None
    }
}

/// Whether an entity may stand on a tile.
///
/// Every tile to the left or right of the grid is walkable: that is where the
/// tunnel continues. Inside that range a tile is walkable unless it is a wall,
/// lies above or below the grid, or belongs to the ghost house while
/// `allow_house` is false.
pub open spec fn walkable(grid: Seq<Seq<CellType>>, tile: Tile, allow_house: bool) -> bool {
    if tile.col < 0 || tile.col >= MAZE_WIDTH {
        true
    } else {
        match grid_cell(grid, tile) {
            Some(CellType::Wall) => false,
            Some(CellType::GhostHouse) => allow_house,
            Some(_) => true,
            None => false,
        }
    }
}

/// The number of dots and power pellets among the first `n` cells of a row.
pub open spec fn count_cells(row: Seq<CellType>, n: int) -> nat
    decreases n,
{
    if n <= 0 {
        0
    } else {
        count_cells(row, n - 1) + if row[n - 1].is_consumable() { 1nat } else { 0nat }
    }
}

/// The number of dots and power pellets in the first `n` rows of a grid.
pub open spec fn count_rows(grid: Seq<Seq<CellType>>, n: int) -> nat
    decreases n,
{
    if n <= 0 {
        0
    } else {
        count_rows(grid, n - 1) + count_cells(grid[n - 1], grid[n - 1].len() as int)
    }
}

/// The number of dots and power pellets in a grid.
pub open spec fn consumables(grid: Seq<Seq<CellType>>) -> nat {
    count_rows(grid, grid.len() as int)
}

/// The grid with the cell at `(col, row)` replaced by `cell`.
pub open spec fn grid_with(grid: Seq<Seq<CellType>>, tile: Tile, cell: CellType) -> Seq<Seq<CellType>> {
    grid.update(tile.row, grid[tile.row].update(tile.col, cell))
}

/// The outer border is all wall, except for the two ends of the tunnel row,
/// which are open.
pub open spec fn enclosed(grid: Seq<Seq<CellType>>) -> bool {
    &&& grid_wf(grid)
    &&& forall|col: int| 0 <= col < MAZE_WIDTH ==> (#[trigger] grid[0][col]) == CellType::Wall
    &&& forall|col: int| 0 <= col < MAZE_WIDTH ==> (#[trigger] grid[MAZE_HEIGHT - 1][col]) == CellType::Wall
    &&& forall|row: int| 0 <= row < MAZE_HEIGHT && row != TUNNEL_ROW ==> (#[trigger] grid[row])[0] == CellType::Wall
    &&& forall|row: int|
        0 <= row < MAZE_HEIGHT && row != TUNNEL_ROW ==> (#[trigger] grid[row])[MAZE_WIDTH - 1] == CellType::Wall
    &&& walkable(grid, Tile { col: 0, row: TUNNEL_ROW as int }, false)
    &&& walkable(grid, Tile { col: MAZE_WIDTH - 1, row: TUNNEL_ROW as int }, false)
}

/// Replacing one cell of a row changes the count of its first `n` cells by
/// what the old and the new cell contribute.
pub proof fn lemma_count_cells_update(row: Seq<CellType>, col: int, cell: CellType, n: int)
    requires
        0 <= col < row.len(),
        0 <= n <= row.len(),
    ensures
        count_cells(row.update(col, cell), n) + (if col < n && row[col].is_consumable() { 1nat } else { 0nat })
            == count_cells(row, n) + (if col < n && cell.is_consumable() { 1nat } else { 0nat }),
    decreases n,
{
    if n > 0 {
        lemma_count_cells_update(row, col, cell, n - 1);
    }
}

/// Replacing one row of a grid changes the count of its first `n` rows by
/// what the old and the new row contribute.
pub proof fn lemma_count_rows_update(grid: Seq<Seq<CellType>>, row: int, cells: Seq<CellType>, n: int)
    requires
        0 <= row < grid.len(),
        0 <= n <= grid.len(),
    ensures
        count_rows(grid.update(row, cells), n) + (if row < n { count_cells(grid[row], grid[row].len() as int) } else { 0 })
            == count_rows(grid, n) + (if row < n { count_cells(cells, cells.len() as int) } else { 0 }),
    decreases n,
{
    if n > 0 {
        lemma_count_rows_update(grid, row, cells, n - 1);
    }
}

/// Eating what lies on a tile leaves one consumable fewer, and leaves every
/// tile as walkable as it was.
pub proof fn lemma_eat(grid: Seq<Seq<CellType>>, tile: Tile)
    requires
        grid_wf(grid),
        grid_cell(grid, tile) is Some,
        grid_cell(grid, tile).unwrap().is_consumable(),
    ensures
        consumables(grid_with(grid, tile, CellType::Empty)) + 1 == consumables(grid),
        grid_wf(grid_with(grid, tile, CellType::Empty)),
        forall|t: Tile, allow_house: bool|
            walkable(grid_with(grid, tile, CellType::Empty), t, allow_house) == walkable(grid, t, allow_house),
        enclosed(grid) ==> enclosed(grid_with(grid, tile, CellType::Empty)),
{
    let cells = grid[tile.row].update(tile.col, CellType::Empty);
    lemma_count_cells_update(grid[tile.row], tile.col, CellType::Empty, grid[tile.row].len() as int);
    lemma_count_rows_update(grid, tile.row, cells, grid.len() as int);
}

/// A grid with a dot or a power pellet on it holds at least one.
pub proof fn lemma_count_positive(grid: Seq<Seq<CellType>>, tile: Tile)
    requires
        grid_wf(grid),
        grid_cell(grid, tile) is Some,
        grid_cell(grid, tile).unwrap().is_consumable(),
    ensures
        consumables(grid) > 0,
{
    lemma_eat(grid, tile);
}

// ─── Maze ───────────────────────────────────────────────────────────────────

/// The game maze: `cells[row][col]`, row 0 at the top.
#[derive(Clone, Debug)]
pub struct Maze {
    pub cells: Vec<Vec<CellType>>,
    pub width: usize,
    pub height: usize,
}

impl View for Maze {
    type V = Seq<Seq<CellType>>;

    open spec fn view(&self) -> Seq<Seq<CellType>> {
        Seq::new(self.cells@.len(), |row: int| self.cells@[row]@)
    }
}

/// Reads one character of the layout.
pub fn cell_from_char(ch: char) -> (cell: CellType)
    ensures
        cell == cell_of_char(ch),
{
    if ch == 'W' {
        CellType::Wall
    } else if ch == '.' {
        CellType::Dot
    } else if ch == 'o' {
        CellType::PowerPellet
    } else if ch == 'G' {
        CellType::GhostHouse
    } else {
        CellType::Empty
    }
}

impl Maze {
    /// The maze has its fixed dimensions, and `width` and `height` say so.
    pub open spec fn wf(&self) -> bool {
        &&& grid_wf(self@)
        &&& self.width == MAZE_WIDTH
        &&& self.height == MAZE_HEIGHT
    }

    /// Create the classic Pac-Man maze layout.
    pub fn new() -> (maze: Maze)
        ensures
            maze.wf(),
            maze@ == classic_grid(),
            enclosed(maze@),
    {
        proof {
            lemma_classic_grid_enclosed();
        }
        let mut cells: Vec<Vec<CellType>> = Vec::new();
        let mut row: usize = 0;
        while row < MAZE_HEIGHT
            invariant
                row <= MAZE_HEIGHT,
                cells@.len() == row,
                forall|r: int| 0 <= r < row ==> (#[trigger] cells@[r])@ == classic_grid()[r],
            decreases MAZE_HEIGHT - row,
        {
            let text: &str = CLASSIC_LAYOUT[row];
            let given: usize = text.unicode_len();
            let mut row_cells: Vec<CellType> = Vec::new();
            let mut col: usize = 0;
            while col < MAZE_WIDTH
                invariant
                    row < MAZE_HEIGHT,
                    col <= MAZE_WIDTH,
                    text@ == CLASSIC_LAYOUT@[row as int]@,
                    given == text@.len(),
                    row_cells@.len() == col,
                    forall|c: int| 0 <= c < col ==> (#[trigger] row_cells@[c]) == classic_cell(c, row as int),
                decreases MAZE_WIDTH - col,
            {
                let cell = if col < given {
                    cell_from_char(text.get_char(col))
                } else {
                    CellType::Empty
                };
                row_cells.push(cell);
                col += 1;
            }
            assert(row_cells@ =~= classic_grid()[row as int]);
            cells.push(row_cells);
            row += 1;
        }
        let maze = Maze { cells, width: MAZE_WIDTH, height: MAZE_HEIGHT };
        assert(maze@ =~= classic_grid());
        maze
    }

    /// Count remaining dots (regular + power pellets) on the maze.
    pub fn dots_remaining(&self) -> (count: usize)
        requires
            self.wf(),
        ensures
            count == consumables(self@),
    {
        let mut count: usize = 0;
        let mut row: usize = 0;
        while row < MAZE_HEIGHT
            invariant
                self.wf(),
                row <= MAZE_HEIGHT,
                count == count_rows(self@, row as int),
                count <= row * MAZE_WIDTH,
            decreases MAZE_HEIGHT - row,
        {
            let mut col: usize = 0;
            let ghost before = count;
            while col < MAZE_WIDTH
                invariant
                    self.wf(),
                    row < MAZE_HEIGHT,
                    col <= MAZE_WIDTH,
                    count == before + count_cells(self@[row as int], col as int),
                    before <= row * MAZE_WIDTH,
                    count <= before + col,
                decreases MAZE_WIDTH - col,
            {
                let cell = self.cells[row][col];
                if cell == CellType::Dot || cell == CellType::PowerPellet {
                    count += 1;
                }
                col += 1;
            }
            row += 1;
        }
        count
    }

    /// Get the cell type at a grid position, or `None` if out of bounds.
    pub fn get_cell(&self, row: usize, col: usize) -> (cell: Option<CellType>)
        ensures
            cell == grid_cell(self@, Tile { col: col as int, row: row as int }),
    {
        if row < self.cells.len() && col < self.cells[row].len() {
            Some(self.cells[row][col])
        } else {
            None
        }
    }

    /// Whether an entity may stand on the tile `(col, row)`; the ghost house
    /// counts as walkable only where `allow_house` is set.
    pub fn walkable_tile(&self, col: i64, row: i64, allow_house: bool) -> (ok: bool)
        ensures
            ok == walkable(self@, Tile { col: col as int, row: row as int }, allow_house),
    {
        if col < 0 || col >= 28 {
            return true;
        }
        let height: usize = self.cells.len();
        if row < 0 || row as u64 >= height as u64 {
            return false;
        }
        match self.get_cell(row as usize, col as usize) {
            Some(CellType::Wall) => false,
            Some(CellType::GhostHouse) => allow_house,
            Some(_) => true,
            None => false,
        }
    }

    /// Check if a coordinate is walkable by entities (not a wall or ghost
    /// house). `x` and `y` are in position units and are rounded to the
    /// nearest tile.
    pub fn is_walkable(&self, x: i64, y: i64) -> (ok: bool)
        ensures
            ok == walkable(self@, (Point { x: x as int, y: y as int }).tile(), false),
    {
        self.walkable_tile(nearest_tile(x), nearest_tile(y), false)
    }

    /// Replace the cell at `(row, col)` with `Empty`.
    pub fn consume(&mut self, row: usize, col: usize)
        requires
            old(self).wf(),
            row < MAZE_HEIGHT,
            col < MAZE_WIDTH,
        ensures
            final(self).wf(),
            final(self)@ == grid_with(old(self)@, Tile { col: col as int, row: row as int }, CellType::Empty),
    {
        assert(self@[row as int].len() == MAZE_WIDTH);
        self.cells[row][col] = CellType::Empty;
        assert(self@ =~= grid_with(old(self)@, Tile { col: col as int, row: row as int }, CellType::Empty));
    }
}

/// The classic layout is enclosed.
pub proof fn lemma_classic_grid_enclosed()
    ensures
        enclosed(classic_grid()),
{
    reveal_strlit("EEEEEE....WEGGGGEW....EEEEEE");
    reveal_strlit("W..........................W");
    reveal_strlit("W............WW............W");
    reveal_strlit("W......WW....WW....WW......W");
    reveal_strlit("W.WWWW.WW.WWWWWWWW.WW.WWWWWW");
    reveal_strlit("W.WWWW.WWWWW.WW.WWWWW.WWWWWW");
    reveal_strlit("W.WWWWWWWWWW.WW.WWWWWWWWWW.W");
    reveal_strlit("WEEEWW.WW..........WW.WWEEEW");
    reveal_strlit("WEEEWW.WW.WWWGGWWW.WW.WWEEEW");
    reveal_strlit("WEEEWW.WW.WWWWWWWW.WW.WWEEEW");
    reveal_strlit("WEEEWW.WWWWW.WW.WWWWW.WWEEEW");
    reveal_strlit("WWW.WW.WW.WWWWWWWW.WW.WW.WWW");
    reveal_strlit("WWWWWW.WW.WEGGGGEW.WW.WWWWWW");
    reveal_strlit("WWWWWW.WW.WWWWWWWW.WW.WWWWWW");
    reveal_strlit("WWWWWW.WWWWW.WW.WWWWW.WWWWWW");
    reveal_strlit("WWWWWWWWWWWWWWWWWWWWWWWWWWWW");
    reveal_strlit("Wo..WW................WW..oW");
    reveal_strlit("WoWWWW.WWWWW.WW.WWWWW.WWWWoW");
    let grid = classic_grid();
    assert forall|col: int| 0 <= col < MAZE_WIDTH implies (#[trigger] grid[0][col]) == CellType::Wall by {}
    assert forall|col: int| 0 <= col < MAZE_WIDTH implies (#[trigger] grid[MAZE_HEIGHT - 1][col])
        == CellType::Wall by {}
    assert forall|row: int| 0 <= row < MAZE_HEIGHT && row != TUNNEL_ROW implies (#[trigger] grid[row])[0]
        == CellType::Wall by {}
    assert forall|row: int| 0 <= row < MAZE_HEIGHT && row != TUNNEL_ROW implies (#[trigger] grid[row])[MAZE_WIDTH
        - 1] == CellType::Wall by {}
}

} // verus!
