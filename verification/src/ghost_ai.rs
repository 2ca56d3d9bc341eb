//! Ghost AI: the tile a ghost heads for, and the way it takes at the center
//! of a tile.

use vstd::prelude::*;
use vstd::arithmetic::div_mod::lemma_fundamental_div_mod_converse;
use crate::entities::{
    lemma_round_tile, Direction, GhostEntity, GhostMode, GhostType, GhostView, Point, Position, Tile,
};
use crate::laws::lemma_no_reverse_at_intersection;
use crate::maze::{walkable, CellType, Maze};

verus! {

/// The largest tile index, in absolute value, between which distances are
/// computed. Every tile that a position lies in, and every target, is within
/// it.
pub const TILE_LIMIT: i64 = 20_000_000_000_000;

/// The tile in front of the ghost house, where an eaten ghost revives.
pub open spec fn house_entrance() -> Tile {
    Tile { col: 14, row: 11 }
}

// ─── Targets ────────────────────────────────────────────────────────────────

/// The corner, outside the grid, that a ghost heads for in `Scatter` mode.
pub open spec fn scatter_target(ghost_type: GhostType) -> Tile {
    match ghost_type {
        GhostType::Blinky => Tile { col: 25, row: -3 },
        GhostType::Pinky => Tile { col: 2, row: -3 },
        GhostType::Inky => Tile { col: 27, row: 31 },
        GhostType::Clyde => Tile { col: 0, row: 31 },
    }
}

/// The squared Euclidean distance between two tiles.
pub open spec fn tile_dist_sq(a: Tile, b: Tile) -> int {
    (a.col - b.col) * (a.col - b.col) + (a.row - b.row) * (a.row - b.row)
}

/// The tile that a ghost heads for in `Chase` mode.
///
/// Blinky heads for Pac-Man's tile and Pinky for the tile four ahead of
/// Pac-Man. Inky takes the tile two ahead of Pac-Man as a pivot and heads for
/// Blinky's tile mirrored in it. Clyde heads for Pac-Man's tile while that is
/// more than eight tiles away, and for his corner otherwise.
pub open spec fn chase_target(ghost_type: GhostType, own: Tile, pac: Tile, pac_dir: Direction, blinky: Tile) -> Tile {
    match ghost_type {
        GhostType::Blinky => pac,
        GhostType::Pinky => pac.ahead(pac_dir, 4),
        GhostType::Inky => {
            let pivot = pac.ahead(pac_dir, 2);
            Tile { col: pivot.col + (pivot.col - blinky.col), row: pivot.row + (pivot.row - blinky.row) }
        },
        GhostType::Clyde => if tile_dist_sq(pac, own) > 64 {
            pac
        } else {
            scatter_target(GhostType::Clyde)
        },
    }
}

/// The seed of a frightened ghost's wandering: `floor(10 t + 3 x)`, with the
/// global timer `t` in seconds and the ghost's `x` in tiles. The arguments are
/// in microseconds and position units.
pub open spec fn frightened_seed(global_timer: int, x: int) -> int {
    (20 * global_timer + 3 * x) / 2_000_000
}

/// The tile that a frightened ghost heads for: `(seed mod 28, 7 seed mod 31)`.
pub open spec fn frightened_target(seed: int) -> Tile {
    Tile { col: seed % 28, row: (seed * 7) % 31 }
}

/// The tile that a ghost heads for, by its mode and type.
pub open spec fn target_tile(
    ghost: GhostView,
    pac_position: Point,
    pac_dir: Direction,
    blinky_position: Point,
    global_timer: int,
) -> Tile {
    match ghost.mode {
        GhostMode::Scatter => scatter_target(ghost.ghost_type),
        GhostMode::Chase => chase_target(
            ghost.ghost_type,
            ghost.position.tile(),
            pac_position.tile(),
            pac_dir,
            blinky_position.tile(),
        ),
        GhostMode::Frightened => frightened_target(frightened_seed(global_timer, ghost.position.x)),
        GhostMode::Eaten => house_entrance(),
    }
}

/// `floor(n / 2_000_000)`.
fn floor_seed(n: i128) -> (seed: i128)
    requires
        -400_000_000_000_000_000_000 <= n <= 400_000_000_000_000_000_000,
    ensures
        seed == n / 2_000_000,
        -200_000_000_000_000 <= seed <= 200_000_000_000_000,
{
    if n >= 0 {
        n / 2_000_000
    } else {
        let a: i128 = -n - 1;
        let q: i128 = a / 2_000_000;
        assert(n / 2_000_000 == -q - 1) by (nonlinear_arith)
            requires
                a == -n - 1,
                a >= 0,
                q == a / 2_000_000,
        ;
        -q - 1
    }
}

/// `v mod m` for a positive modulus, never negative.
fn modulo(v: i128, m: i128) -> (r: i64)
    requires
        0 < m <= 31,
        -2_000_000_000_000_000 <= v <= 2_000_000_000_000_000,
    ensures
        r == v % m,
        0 <= r < m,
{
    if v >= 0 {
        (v % m) as i64
    } else {
        let a: i128 = -v;
        let q: i128 = a / m;
        let k: i128 = a % m;
        assert(a == q * m + k) by (nonlinear_arith)
            requires
                a >= 0,
                m > 0,
                q == a / m,
                k == a % m,
        ;
        if k == 0 {
            proof {
                assert(v == (-q) * m + 0) by (nonlinear_arith)
                    requires
                        v == -a,
                        a == q * m + k,
                        k == 0,
                ;
                lemma_fundamental_div_mod_converse(v as int, m as int, -q, 0);
            }
            0
        } else {
            proof {
                assert(v == (-q - 1) * m + (m - k)) by (nonlinear_arith)
                    requires
                        v == -a,
                        a == q * m + k,
                ;
                lemma_fundamental_div_mod_converse(v as int, m as int, -q - 1, m - k);
            }
            (m - k) as i64
        }
    }
}

/// The product of a tile offset with itself.
fn square(v: i128) -> (r: i128)
    requires
        -100_000_000_000_000 <= v <= 100_000_000_000_000,
    ensures
        r == v * v,
        0 <= r <= 10_000_000_000_000_000_000_000_000_000,
{
    assert(0 <= v * v <= 10_000_000_000_000_000_000_000_000_000) by (nonlinear_arith)
        requires
            -100_000_000_000_000 <= v <= 100_000_000_000_000,
    ;
    v * v
}

/// The squared Euclidean distance between two tiles `(col, row)`.
pub fn tile_distance_sq(a: (i64, i64), b: (i64, i64)) -> (d: i128)
    requires
        -TILE_LIMIT <= a.0 <= TILE_LIMIT,
        -TILE_LIMIT <= a.1 <= TILE_LIMIT,
        -TILE_LIMIT <= b.0 <= TILE_LIMIT,
        -TILE_LIMIT <= b.1 <= TILE_LIMIT,
    ensures
        d == tile_dist_sq(Tile { col: a.0 as int, row: a.1 as int }, Tile { col: b.0 as int, row: b.1 as int }),
{
    let dc: i128 = a.0 as i128 - b.0 as i128;
    let dr: i128 = a.1 as i128 - b.1 as i128;
    square(dc) + square(dr)
}

/// The tile `(col, row)` that a ghost heads for.
pub fn get_ghost_target(
    ghost: &GhostEntity,
    pac_pos: &Position,
    pac_dir: Direction,
    blinky_pos: &Position,
    global_timer: u64,
) -> (target: (i64, i64))
    ensures
        (Tile { col: target.0 as int, row: target.1 as int }) == target_tile(
            ghost@,
            pac_pos@,
            pac_dir,
            blinky_pos@,
            global_timer as int,
        ),
        -TILE_LIMIT < target.0 < TILE_LIMIT,
        -TILE_LIMIT < target.1 < TILE_LIMIT,
{
    proof {
        lemma_round_tile(ghost.position.x as int);
        lemma_round_tile(ghost.position.y as int);
        lemma_round_tile(pac_pos.x as int);
        lemma_round_tile(pac_pos.y as int);
        lemma_round_tile(blinky_pos.x as int);
        lemma_round_tile(blinky_pos.y as int);
    }
    match ghost.mode {
        GhostMode::Scatter => match ghost.ghost_type {
            GhostType::Blinky => (25, -3),
            GhostType::Pinky => (2, -3),
            GhostType::Inky => (27, 31),
            GhostType::Clyde => (0, 31),
        },
        GhostMode::Chase => {
            let (c, r) = pac_pos.to_grid();
            let (dx, dy) = pac_dir.to_vector();
            match ghost.ghost_type {
                GhostType::Blinky => (c, r),
                GhostType::Pinky => (c + dx * 4, r + dy * 4),
                GhostType::Inky => {
                    let pivot_c: i64 = c + dx * 2;
                    let pivot_r: i64 = r + dy * 2;
                    let (bc, br) = blinky_pos.to_grid();
                    (pivot_c + (pivot_c - bc), pivot_r + (pivot_r - br))
                },
                GhostType::Clyde => {
                    let own = ghost.position.to_grid();
                    if tile_distance_sq((c, r), own) > 64 {
                        (c, r)
                    } else {
                        (0, 31)
                    }
                },
            }
        },
        GhostMode::Frightened => {
            let n: i128 = 20 * (global_timer as i128) + 3 * (ghost.position.x as i128);
            let seed: i128 = floor_seed(n);
            (modulo(seed, 28), modulo(seed * 7, 31))
        },
        GhostMode::Eaten => (14, 11),
    }
}

// ─── The way taken at a tile center ─────────────────────────────────────────

/// The four directions in the order in which a ghost considers them:
/// up, left, down, right.
pub open spec fn candidate(i: int) -> Direction {
    if i == 0 {
        Direction::Up
    } else if i == 1 {
        Direction::Left
    } else if i == 2 {
        Direction::Down
    } else {
        Direction::Right
    }
}

/// The place of a direction in the order of [`candidate`].
pub open spec fn rank(dir: Direction) -> int {
    match dir {
        Direction::Up => 0,
        Direction::Left => 1,
        Direction::Down => 2,
        Direction::Right => 3,
    }
}

/// A ghost on `tile` that faces `facing` may leave in direction `dir`: not
/// backwards, and only onto a walkable tile.
pub open spec fn is_open(
    grid: Seq<Seq<CellType>>,
    tile: Tile,
    facing: Direction,
    allow_house: bool,
    dir: Direction,
) -> bool {
    &&& dir != facing.reversed()
    &&& walkable(grid, tile.neighbor(dir), allow_house)
}

/// The better of the best direction so far and the next candidate: the
/// candidate wins only if it is open and strictly nearer to the target.
pub open spec fn better_of(
    grid: Seq<Seq<CellType>>,
    tile: Tile,
    facing: Direction,
    target: Tile,
    allow_house: bool,
    best: Option<Direction>,
    dir: Direction,
) -> Option<Direction> {
    if !is_open(grid, tile, facing, allow_house, dir) {
        best
    } else {
        match best {
            None => Some(dir),
            Some(b) => if tile_dist_sq(tile.neighbor(dir), target) < tile_dist_sq(tile.neighbor(b), target) {
                Some(dir)
            } else {
                best
            },
        }
    }
}

/// The best direction among the first `n` candidates, if any of them is open.
pub open spec fn best_among(
    grid: Seq<Seq<CellType>>,
    tile: Tile,
    facing: Direction,
    target: Tile,
    allow_house: bool,
    n: int,
) -> Option<Direction>
    decreases n,
{
    if n <= 0 {
        None
    } else {
        better_of(
            grid,
            tile,
            facing,
            target,
            allow_house,
            best_among(grid, tile, facing, target, allow_house, n - 1),
            candidate(n - 1),
        )
    }
}

/// The direction a ghost takes at the center of `tile`: the open direction
/// whose tile is nearest to the target, the earlier candidate on a tie; where
/// no direction is open, the way back.
pub open spec fn best_direction(
    grid: Seq<Seq<CellType>>,
    tile: Tile,
    facing: Direction,
    target: Tile,
    allow_house: bool,
) -> Direction {
    match best_among(grid, tile, facing, target, allow_house, 4) {
        Some(dir) => dir,
        None => facing.reversed(),
    }
}

/// Weighs one candidate against the best direction found so far; `best`
/// comes with the squared distance of its tile to the target.
fn consider(
    maze: &Maze,
    tile: (i64, i64),
    facing: Direction,
    target: (i64, i64),
    allow_house: bool,
    best: Option<(Direction, i128)>,
    dir: Direction,
) -> (out: Option<(Direction, i128)>)
    requires
        -TILE_LIMIT < tile.0 < TILE_LIMIT,
        -TILE_LIMIT < tile.1 < TILE_LIMIT,
        -TILE_LIMIT <= target.0 <= TILE_LIMIT,
        -TILE_LIMIT <= target.1 <= TILE_LIMIT,
        best is Some ==> best.unwrap().1 == tile_dist_sq(
            (Tile { col: tile.0 as int, row: tile.1 as int }).neighbor(best.unwrap().0),
            Tile { col: target.0 as int, row: target.1 as int },
        ),
    ensures
        out is Some ==> out.unwrap().1 == tile_dist_sq(
            (Tile { col: tile.0 as int, row: tile.1 as int }).neighbor(out.unwrap().0),
            Tile { col: target.0 as int, row: target.1 as int },
        ),
        (match out {
            Some(pair) => Some(pair.0),
            None => None,
        }) == better_of(
            maze@,
            Tile { col: tile.0 as int, row: tile.1 as int },
            facing,
            Tile { col: target.0 as int, row: target.1 as int },
            allow_house,
            match best {
                Some(pair) => Some(pair.0),
                None => None,
            },
            dir,
        ),
{
    if dir == facing.opposite() {
        return best;
    }
    let v = dir.to_vector();
    let next: (i64, i64) = (tile.0 + v.0, tile.1 + v.1);
    if !maze.walkable_tile(next.0, next.1, allow_house) {
        return best;
    }
    let dist: i128 = tile_distance_sq(next, target);
    match best {
        None => Some((dir, dist)),
        Some(pair) => if dist < pair.1 {
            Some((dir, dist))
        } else {
            best
        },
    }
}

/// The direction a ghost takes at the center of the tile `(col, row)`. It
/// is the way back only where every other neighbor is closed.
pub fn choose_direction(
    maze: &Maze,
    tile: (i64, i64),
    facing: Direction,
    target: (i64, i64),
    allow_house: bool,
) -> (dir: Direction)
    requires
        -TILE_LIMIT < tile.0 < TILE_LIMIT,
        -TILE_LIMIT < tile.1 < TILE_LIMIT,
        -TILE_LIMIT <= target.0 <= TILE_LIMIT,
        -TILE_LIMIT <= target.1 <= TILE_LIMIT,
    ensures
        dir == best_direction(
            maze@,
            Tile { col: tile.0 as int, row: tile.1 as int },
            facing,
            Tile { col: target.0 as int, row: target.1 as int },
            allow_house,
        ),
        dir == facing.reversed() ==> forall|other: Direction|
            other != facing.reversed() ==> !#[trigger] walkable(
                maze@,
                (Tile { col: tile.0 as int, row: tile.1 as int }).neighbor(other),
                allow_house,
            ),
{
    proof {
        if best_direction(
            maze@,
            Tile { col: tile.0 as int, row: tile.1 as int },
            facing,
            Tile { col: target.0 as int, row: target.1 as int },
            allow_house,
        ) == facing.reversed() {
            lemma_no_reverse_at_intersection(
                maze@,
                Tile { col: tile.0 as int, row: tile.1 as int },
                facing,
                Tile { col: target.0 as int, row: target.1 as int },
                allow_house,
            );
        }
    }
    let b0: Option<(Direction, i128)> = None;
    let b1 = consider(maze, tile, facing, target, allow_house, b0, Direction::Up);
    let b2 = consider(maze, tile, facing, target, allow_house, b1, Direction::Left);
    let b3 = consider(maze, tile, facing, target, allow_house, b2, Direction::Down);
    let b4 = consider(maze, tile, facing, target, allow_house, b3, Direction::Right);
    proof {
        reveal_with_fuel(best_among, 5);
    }
    match b4 {
        Some(pair) => pair.0,
        None => facing.opposite(),
    }
}

} // verus!
