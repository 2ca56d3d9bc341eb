//! Game entities: directions, positions, Pac-Man and the ghosts.
//!
//! Positions are exact fixed-point numbers. One tile is [`TILE`] position
//! units wide, and time is counted in whole microseconds, so that every
//! distance `speed * dt` is a whole number of units for each of the speeds in
//! use (the slowest, a frightened ghost at 4.5 tiles per second, covers 9 units
//! per microsecond).

use vstd::prelude::*;

verus! {

/// Position units per tile.
pub const TILE: i64 = 2_000_000;

/// Position units in half a tile.
pub const HALF_TILE: i64 = 1_000_000;

// ─── Direction ──────────────────────────────────────────────────────────────

/// The four cardinal directions an entity can face and move in.
#[derive(Clone, Copy, Debug, PartialEq, Eq, Structural)]
pub enum Direction {
    Up,
    Down,
    Left,
    Right,
}

impl Direction {
    /// The direction facing the other way.
    pub open spec fn reversed(self) -> Direction {
        match self {
            Direction::Up => Direction::Down,
            Direction::Down => Direction::Up,
            Direction::Left => Direction::Right,
            Direction::Right => Direction::Left,
        }
    }

    /// Horizontal component of the unit vector: `-1` for `Left`, `1` for `Right`.
    pub open spec fn dx(self) -> int {
        match self {
            Direction::Left => -1,
            Direction::Right => 1,
            _ => 0,
        }
    }

    /// Vertical component of the unit vector: `-1` for `Up`, `1` for `Down`
    /// (row 0 is the top row).
    pub open spec fn dy(self) -> int {
        match self {
            Direction::Up => -1,
            Direction::Down => 1,
            _ => 0,
        }
    }

    /// The direction facing the other way.
    pub fn opposite(self) -> (r: Direction)
        ensures
            r == self.reversed(),
    {
        match self {
            Direction::Up => Direction::Down,
            Direction::Down => Direction::Up,
            Direction::Left => Direction::Right,
            Direction::Right => Direction::Left,
        }
    }

    /// The unit vector `(dx, dy)` of this direction, in tiles.
    pub fn to_vector(self) -> (v: (i64, i64))
        ensures
            v.0 == self.dx(),
            v.1 == self.dy(),
    {
        match self {
            Direction::Up => (0, -1),
            Direction::Down => (0, 1),
            Direction::Left => (-1, 0),
            Direction::Right => (1, 0),
        }
    }
}

// ─── Position ───────────────────────────────────────────────────────────────

/// The tile whose center is nearest to the coordinate `v`, halves rounding
/// away from zero.
pub open spec fn round_tile(v: int) -> int {
    if v >= 0 {
        (v + HALF_TILE) / (TILE as int)
    } else {
        -((HALF_TILE - v) / (TILE as int))
    }
}

/// A point of the plane, in position units: the mathematical value of a
/// [`Position`].
pub struct Point {
    pub x: int,
    pub y: int,
}

/// A tile of the grid, by column and row. Either may lie outside the maze.
pub struct Tile {
    pub col: int,
    pub row: int,
}

impl Point {
    /// The tile this point lies in: `(round(x), round(y))`.
    pub open spec fn tile(self) -> Tile {
        Tile { col: round_tile(self.x), row: round_tile(self.y) }
    }

    /// The center of the tile this point lies in.
    pub open spec fn center(self) -> Point {
        self.tile().center()
    }

    /// The point `d` units further in direction `dir`.
    pub open spec fn moved(self, dir: Direction, d: int) -> Point {
        Point { x: self.x + dir.dx() * d, y: self.y + dir.dy() * d }
    }
}

impl Tile {
    /// The center point of this tile.
    pub open spec fn center(self) -> Point {
        Point { x: self.col * TILE, y: self.row * TILE }
    }

    /// The adjacent tile in direction `dir`.
    pub open spec fn neighbor(self, dir: Direction) -> Tile {
        Tile { col: self.col + dir.dx(), row: self.row + dir.dy() }
    }

    /// The tile `n` steps away in direction `dir`.
    pub open spec fn ahead(self, dir: Direction, n: int) -> Tile {
        Tile { col: self.col + dir.dx() * n, row: self.row + dir.dy() * n }
    }
}

/// A coordinate lies within half a tile of the center of its tile. The tile
/// reaches from half a tile before its center up to, but not including, half a
/// tile after it, seen from zero.
pub proof fn lemma_round_tile(v: int)
    ensures
        v >= 0 ==> round_tile(v) >= 0 && round_tile(v) * TILE - HALF_TILE <= v < round_tile(v) * TILE + HALF_TILE,
        v < 0 ==> round_tile(v) <= 0 && round_tile(v) * TILE - HALF_TILE < v <= round_tile(v) * TILE + HALF_TILE,
{
    if v >= 0 {
        let t = (v + 1_000_000) / 2_000_000;
        assert(t >= 0 && t * 2_000_000 <= v + 1_000_000 < t * 2_000_000 + 2_000_000) by (nonlinear_arith)
            requires
                t == (v + 1_000_000) / 2_000_000,
                v >= 0,
        ;
    } else {
        let u = (1_000_000 - v) / 2_000_000;
        assert(u >= 0 && u * 2_000_000 <= 1_000_000 - v < u * 2_000_000 + 2_000_000) by (nonlinear_arith)
            requires
                u == (1_000_000 - v) / 2_000_000,
                v < 0,
        ;
    }
}

/// The tile whose center is at coordinate `t * TILE` is tile `t`.
pub proof fn lemma_round_tile_center(t: int)
    ensures
        round_tile(t * TILE) == t,
{
    if t >= 0 {
        assert((t * 2_000_000 + 1_000_000) / 2_000_000 == t) by (nonlinear_arith)
            requires
                t >= 0,
        ;
    } else {
        assert((1_000_000 - t * 2_000_000) / 2_000_000 == -t) by (nonlinear_arith)
            requires
                t < 0,
        ;
    }
}

/// Rounds a coordinate in position units to its tile index.
pub fn nearest_tile(v: i64) -> (t: i64)
    ensures
        t == round_tile(v as int),
        t * TILE - HALF_TILE <= v <= t * TILE + HALF_TILE,
{
    proof {
        lemma_round_tile(v as int);
    }
    if v >= 0 {
        let q: i64 = v / TILE;
        let r: i64 = v % TILE;
        assert(v == q * TILE + r) by (nonlinear_arith)
            requires
                q == v / TILE,
                r == v % TILE,
                TILE == 2_000_000,
        ;
        if r >= HALF_TILE {
            assert((v + HALF_TILE) / (TILE as int) == q + 1) by (nonlinear_arith)
                requires
                    v == q * TILE + r,
                    HALF_TILE <= r < TILE,
                    TILE == 2_000_000,
                    HALF_TILE == 1_000_000,
            ;
            q + 1
        } else {
            assert((v + HALF_TILE) / (TILE as int) == q) by (nonlinear_arith)
                requires
                    v == q * TILE + r,
                    0 <= r < HALF_TILE,
                    TILE == 2_000_000,
                    HALF_TILE == 1_000_000,
            ;
            q
        }
    } else {
        // `a` is `|v| - 1`, which always fits.
        let a: i64 = -(v + 1);
        let q: i64 = a / TILE;
        let r: i64 = a % TILE;
        assert(a == q * TILE + r) by (nonlinear_arith)
            requires
                q == a / TILE,
                r == a % TILE,
                TILE == 2_000_000,
        ;
        if r + 1 >= HALF_TILE {
            assert((HALF_TILE - v) / (TILE as int) == q + 1) by (nonlinear_arith)
                requires
                    -v == q * TILE + r + 1,
                    HALF_TILE <= r + 1 <= TILE,
                    TILE == 2_000_000,
                    HALF_TILE == 1_000_000,
            ;
            -(q + 1)
        } else {
            assert((HALF_TILE - v) / (TILE as int) == q) by (nonlinear_arith)
                requires
                    -v == q * TILE + r + 1,
                    0 < r + 1 < HALF_TILE,
                    TILE == 2_000_000,
                    HALF_TILE == 1_000_000,
            ;
            -q
        }
    }
}

/// A 2D position in position units; `x` grows to the right, `y` downwards.
#[derive(Clone, Copy, Debug, PartialEq, Eq, Structural)]
pub struct Position {
    pub x: i64,
    pub y: i64,
}

impl View for Position {
    type V = Point;

    open spec fn view(&self) -> Point {
        Point { x: self.x as int, y: self.y as int }
    }
}

impl Position {
    /// The position with the given coordinates, in position units.
    pub fn new(x: i64, y: i64) -> (p: Position)
        ensures
            p.x == x,
            p.y == y,
    {
        Position { x, y }
    }

    /// The position of the center of tile `(col, row)`.
    pub fn at_tile(col: i64, row: i64) -> (p: Position)
        requires
            i64::MIN <= col * TILE <= i64::MAX,
            i64::MIN <= row * TILE <= i64::MAX,
        ensures
            p@ == (Tile { col: col as int, row: row as int }).center(),
    {
        Position { x: col * TILE, y: row * TILE }
    }

    /// Grid coordinates `(column, row)` of the tile this position lies in.
    pub fn to_grid(&self) -> (g: (i64, i64))
        ensures
            g.0 == self@.tile().col,
            g.1 == self@.tile().row,
    {
        (nearest_tile(self.x), nearest_tile(self.y))
    }
}

// ─── Pac-Man ────────────────────────────────────────────────────────────────

/// The mathematical value of a [`PacMan`].
pub struct PacManView {
    pub position: Point,
    pub direction: Direction,
    pub next_direction: Direction,
    pub lives: nat,
    pub score: nat,
}

/// The player-controlled Pac-Man entity.
#[derive(Clone, Copy, Debug, PartialEq, Eq, Structural)]
pub struct PacMan {
    pub position: Position,
    pub direction: Direction,
    /// The turn the player has asked for; taken as soon as the maze allows.
    pub next_direction: Direction,
    pub lives: u8,
    pub score: u32,
}

impl View for PacMan {
    type V = PacManView;

    open spec fn view(&self) -> PacManView {
        PacManView {
            position: self.position@,
            direction: self.direction,
            next_direction: self.next_direction,
            lives: self.lives as nat,
            score: self.score as nat,
        }
    }
}

/// Pac-Man as a fresh game has him: at tile `(14, 23)`, facing left, with
/// three lives and no points.
pub open spec fn initial_pacman() -> PacManView {
    PacManView {
        position: (Tile { col: 14, row: 23 }).center(),
        direction: Direction::Left,
        next_direction: Direction::Left,
        lives: 3,
        score: 0,
    }
}

impl PacMan {
    /// Create Pac-Man at the classic starting position (column 14, row 23).
    pub fn new() -> (p: PacMan)
        ensures
            p@ == initial_pacman(),
    {
        PacMan {
            position: Position::at_tile(14, 23),
            direction: Direction::Left,
            next_direction: Direction::Left,
            lives: 3,
            score: 0,
        }
    }
}

impl Default for PacMan {
    fn default() -> (p: PacMan)
        ensures
            p@ == initial_pacman(),
    {
        PacMan::new()
    }
}

// ─── Ghosts ─────────────────────────────────────────────────────────────────

/// The four ghost personalities; each chases Pac-Man in its own way.
#[derive(Clone, Copy, Debug, PartialEq, Eq, Structural)]
pub enum GhostType {
    Blinky,
    Pinky,
    Inky,
    Clyde,
}

/// The behavioral state of a ghost.
///
/// ```text
///  Scatter <-> Chase   (alternates on a timer)
///       |       |
///     Frightened       (when Pac-Man eats a power pellet)
///       |
///      Eaten           (ghost returns to the ghost house)
///       |
///     Chase/Scatter    (revives)
/// ```
#[derive(Clone, Copy, Debug, PartialEq, Eq, Structural)]
pub enum GhostMode {
    Chase,
    Scatter,
    Frightened,
    Eaten,
}

impl GhostMode {
    /// True of the two modes that the scatter/chase schedule governs.
    pub open spec fn is_scheduled(self) -> bool {
        self == GhostMode::Chase || self == GhostMode::Scatter
    }
}

/// The mathematical value of a [`GhostEntity`].
pub struct GhostView {
    pub ghost_type: GhostType,
    pub position: Point,
    pub direction: Direction,
    pub next_direction: Direction,
    pub mode: GhostMode,
}

/// A ghost entity with its type, position, and behavioral state.
#[derive(Clone, Copy, Debug, PartialEq, Eq, Structural)]
pub struct GhostEntity {
    pub ghost_type: GhostType,
    pub position: Position,
    pub direction: Direction,
    /// The turn a second player has asked for; read only while the ghost is
    /// player-controlled.
    pub next_direction: Direction,
    pub mode: GhostMode,
}

impl View for GhostEntity {
    type V = GhostView;

    open spec fn view(&self) -> GhostView {
        GhostView {
            ghost_type: self.ghost_type,
            position: self.position@,
            direction: self.direction,
            next_direction: self.next_direction,
            mode: self.mode,
        }
    }
}

/// The ghost type that stands at index `i` of a game's ghost list.
pub open spec fn ghost_type_at(i: int) -> GhostType {
    if i == 0 {
        GhostType::Blinky
    } else if i == 1 {
        GhostType::Pinky
    } else if i == 2 {
        GhostType::Inky
    } else {
        GhostType::Clyde
    }
}

/// The tile on which a ghost of the given type starts.
pub open spec fn spawn_tile(ghost_type: GhostType) -> Tile {
    match ghost_type {
        GhostType::Blinky => Tile { col: 14, row: 11 },
        GhostType::Pinky => Tile { col: 12, row: 14 },
        GhostType::Inky => Tile { col: 14, row: 14 },
        GhostType::Clyde => Tile { col: 16, row: 14 },
    }
}

/// A ghost as it is created: facing up, in `Scatter` mode.
pub open spec fn new_ghost(ghost_type: GhostType, position: Point) -> GhostView {
    GhostView {
        ghost_type,
        position,
        direction: Direction::Up,
        next_direction: Direction::Up,
        mode: GhostMode::Scatter,
    }
}

/// The four ghosts of a fresh game, in the order Blinky, Pinky, Inky, Clyde.
pub open spec fn initial_ghosts() -> Seq<GhostView> {
    Seq::new(4, |i: int| new_ghost(ghost_type_at(i), spawn_tile(ghost_type_at(i)).center()))
}

/// The values of a list of ghosts.
pub open spec fn ghost_views(ghosts: Seq<GhostEntity>) -> Seq<GhostView> {
    Seq::new(ghosts.len(), |i: int| ghosts[i]@)
}

impl GhostEntity {
    /// Create a ghost at a given starting position, facing up, in `Scatter`
    /// mode.
    pub fn new(ghost_type: GhostType, position: Position) -> (g: GhostEntity)
        ensures
            g@ == new_ghost(ghost_type, position@),
    {
        GhostEntity {
            ghost_type,
            position,
            direction: Direction::Up,
            next_direction: Direction::Up,
            mode: GhostMode::Scatter,
        }
    }

    /// Create all four ghosts at their classic starting positions.
    pub fn create_all() -> (ghosts: Vec<GhostEntity>)
        ensures
            ghost_views(ghosts@) == initial_ghosts(),
    {
        let mut ghosts: Vec<GhostEntity> = Vec::new();
        ghosts.push(GhostEntity::new(GhostType::Blinky, Position::at_tile(14, 11)));
        ghosts.push(GhostEntity::new(GhostType::Pinky, Position::at_tile(12, 14)));
        ghosts.push(GhostEntity::new(GhostType::Inky, Position::at_tile(14, 14)));
        ghosts.push(GhostEntity::new(GhostType::Clyde, Position::at_tile(16, 14)));
        assert(ghost_views(ghosts@) =~= initial_ghosts());
        ghosts
    }
}

} // verus!
