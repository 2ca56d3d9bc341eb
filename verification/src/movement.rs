//! The movement kernel: one sub-tile step of a moving entity.
//!
//! A step takes a pending turn where the maze allows it, moves the entity
//! forward, stops it at the center of its tile in front of a wall, and carries
//! it through the tunnel. Pac-Man and a player-controlled ghost move by it.

use vstd::prelude::*;
use crate::entities::{nearest_tile, Direction, Point, Position, HALF_TILE, TILE};
use crate::maze::{walkable, CellType, Maze};

verus! {

/// The largest coordinate, in absolute value, from which a step may start.
pub const COORD_LIMIT: i64 = 1_000_000_000_000_000_000;

/// The longest distance that one step may cover.
pub const DIST_LIMIT: i64 = 36_000_000_000_000;

/// The width of the maze in position units: the distance that the tunnel
/// carries an entity.
pub const WRAP: i64 = 56_000_000;

/// A moving entity, as far as the kernel is concerned.
pub struct Mover {
    pub position: Point,
    pub direction: Direction,
    /// The turn that was asked for.
    pub pending: Direction,
}

/// The point can be moved from without leaving the machine's integers.
pub open spec fn in_reach(p: Point) -> bool {
    &&& -COORD_LIMIT <= p.x <= COORD_LIMIT
    &&& -COORD_LIMIT <= p.y <= COORD_LIMIT
}

/// The distance between two coordinates.
pub open spec fn gap(a: int, b: int) -> int {
    if a >= b {
        a - b
    } else {
        b - a
    }
}

/// The point lies within `d` of the center of its tile, on both axes.
pub open spec fn near_center(p: Point, d: int) -> bool {
    &&& gap(p.x, p.center().x) <= d
    &&& gap(p.y, p.center().y) <= d
}

/// The mover after its attempt to turn.
///
/// Turning back is always allowed and leaves the position alone. A quarter
/// turn needs the mover within `d` of the center of its tile and a walkable
/// tile on that side; it puts the mover on the center. Otherwise nothing
/// changes.
pub open spec fn turned(grid: Seq<Seq<CellType>>, m: Mover, d: int, allow_house: bool) -> Mover {
    if m.pending == m.direction {
        m
    } else if m.pending == m.direction.reversed() {
        Mover { direction: m.pending, ..m }
    } else if near_center(m.position, d) && walkable(grid, m.position.tile().neighbor(m.pending), allow_house) {
        Mover { position: m.position.center(), direction: m.pending, ..m }
    } else {
        m
    }
}

/// Moving from `p` to `next` in direction `dir` reaches the center line of
/// `p`'s tile: `p` lies before it and `next` on or after it.
pub open spec fn crosses_center(p: Point, next: Point, dir: Direction) -> bool {
    let c = p.center();
    match dir {
        Direction::Right => p.x < c.x && next.x >= c.x,
        Direction::Left => p.x > c.x && next.x <= c.x,
        Direction::Down => p.y < c.y && next.y >= c.y,
        Direction::Up => p.y > c.y && next.y <= c.y,
    }
}

/// `next` lies beyond the center line of `p`'s tile, seen in direction `dir`.
pub open spec fn beyond_center(p: Point, next: Point, dir: Direction) -> bool {
    let c = p.center();
    match dir {
        Direction::Right => next.x > c.x,
        Direction::Left => next.x < c.x,
        Direction::Down => next.y > c.y,
        Direction::Up => next.y < c.y,
    }
}

/// A step of `d` from `p` in direction `dir` is stopped by the maze: it would
/// reach or pass the center of `p`'s tile, and the tile after it is not
/// walkable.
pub open spec fn blocked(grid: Seq<Seq<CellType>>, p: Point, dir: Direction, d: int, allow_house: bool) -> bool {
    let next = p.moved(dir, d);
    &&& crosses_center(p, next, dir) || beyond_center(p, next, dir)
    &&& !walkable(grid, p.tile().neighbor(dir), allow_house)
}

/// The coordinate after the tunnel has carried it back into
/// `[-HALF_TILE, WRAP - HALF_TILE)`, if one trip suffices.
pub open spec fn wrapped_x(x: int) -> int {
    if x < -HALF_TILE {
        x + WRAP
    } else if x >= WRAP - HALF_TILE {
        x - WRAP
    } else {
        x
    }
}

/// The point after the tunnel wrap. There is no vertical wrap.
pub open spec fn wrapped(p: Point) -> Point {
    Point { x: wrapped_x(p.x), y: p.y }
}

/// The mover after one step of `d`: turn, move forward, stop at the center in
/// front of a blocked tile, wrap.
pub open spec fn stepped(grid: Seq<Seq<CellType>>, m: Mover, d: int, allow_house: bool) -> Mover {
    let t = turned(grid, m, d, allow_house);
    let landed = if blocked(grid, t.position, t.direction, d, allow_house) {
        t.position.center()
    } else {
        t.position.moved(t.direction, d)
    };
    Mover { position: wrapped(landed), ..t }
}

/// The center of the tile that a position lies in. It is no further out than
/// the position is.
pub fn center_of(position: Position) -> (c: Position)
    requires
        i64::MIN + HALF_TILE <= position.x <= i64::MAX - HALF_TILE,
        i64::MIN + HALF_TILE <= position.y <= i64::MAX - HALF_TILE,
    ensures
        c@ == position@.center(),
        in_reach(position@) ==> in_reach(c@),
{
    let col: i64 = nearest_tile(position.x);
    let row: i64 = nearest_tile(position.y);
    proof {
        // The limit of reach is itself a center: tile 500_000_000_000.
        if in_reach(position@) {
            assert(-500_000_000_000 <= col <= 500_000_000_000);
            assert(-500_000_000_000 <= row <= 500_000_000_000);
        }
    }
    Position { x: col * TILE, y: row * TILE }
}

/// Carries a position through the tunnel.
pub fn wrap(position: Position) -> (p: Position)
    requires
        i64::MIN + WRAP <= position.x <= i64::MAX - WRAP,
    ensures
        p@ == wrapped(position@),
{
    if position.x < -HALF_TILE {
        Position { x: position.x + WRAP, y: position.y }
    } else if position.x >= WRAP - HALF_TILE {
        Position { x: position.x - WRAP, y: position.y }
    } else {
        position
    }
}

/// The position `dist` further in a direction.
pub fn move_by(position: Position, direction: Direction, dist: i64) -> (p: Position)
    requires
        in_reach(position@),
        0 <= dist <= DIST_LIMIT,
    ensures
        p@ == position@.moved(direction, dist as int),
        position.x - dist <= p.x <= position.x + dist,
        position.y - dist <= p.y <= position.y + dist,
{
    match direction {
        Direction::Up => Position { x: position.x, y: position.y - dist },
        Direction::Down => Position { x: position.x, y: position.y + dist },
        Direction::Left => Position { x: position.x - dist, y: position.y },
        Direction::Right => Position { x: position.x + dist, y: position.y },
    }
}

/// Whether a move from `position` to `next` reaches the center line of the
/// tile of `position`.
pub fn reaches_center(position: Position, next: Position, direction: Direction) -> (b: bool)
    requires
        in_reach(position@),
    ensures
        b == crosses_center(position@, next@, direction),
{
    let c = center_of(position);
    match direction {
        Direction::Right => position.x < c.x && next.x >= c.x,
        Direction::Left => position.x > c.x && next.x <= c.x,
        Direction::Down => position.y < c.y && next.y >= c.y,
        Direction::Up => position.y > c.y && next.y <= c.y,
    }
}

/// Whether `next` lies beyond the center line of the tile of `position`.
pub fn passes_center(position: Position, next: Position, direction: Direction) -> (b: bool)
    requires
        in_reach(position@),
    ensures
        b == beyond_center(position@, next@, direction),
{
    let c = center_of(position);
    match direction {
        Direction::Right => next.x > c.x,
        Direction::Left => next.x < c.x,
        Direction::Down => next.y > c.y,
        Direction::Up => next.y < c.y,
    }
}

/// Whether the tile next to the tile of `position`, in the given direction,
/// is walkable.
pub fn neighbor_walkable(maze: &Maze, position: Position, direction: Direction, allow_house: bool) -> (ok: bool)
    requires
        in_reach(position@),
    ensures
        ok == walkable(maze@, position@.tile().neighbor(direction), allow_house),
{
    let col: i64 = nearest_tile(position.x);
    let row: i64 = nearest_tile(position.y);
    let v = direction.to_vector();
    maze.walkable_tile(col + v.0, row + v.1, allow_house)
}

/// Takes the pending turn if the maze allows it; returns the position and
/// direction after the attempt.
pub fn try_turn(
    maze: &Maze,
    position: Position,
    direction: Direction,
    next_direction: Direction,
    dist: i64,
    allow_house: bool,
) -> (out: (Position, Direction))
    requires
        in_reach(position@),
        0 <= dist,
    ensures
        out.0@ == turned(
            maze@,
            Mover { position: position@, direction, pending: next_direction },
            dist as int,
            allow_house,
        ).position,
        out.1 == turned(
            maze@,
            Mover { position: position@, direction, pending: next_direction },
            dist as int,
            allow_house,
        ).direction,
        in_reach(out.0@),
{
    if next_direction == direction {
        return (position, direction);
    }
    if next_direction == direction.opposite() {
        return (position, next_direction);
    }
    let c = center_of(position);
    let off_x: i64 = if position.x >= c.x { position.x - c.x } else { c.x - position.x };
    let off_y: i64 = if position.y >= c.y { position.y - c.y } else { c.y - position.y };
    if off_x <= dist && off_y <= dist && neighbor_walkable(maze, position, next_direction, allow_house) {
        (c, next_direction)
    } else {
        (position, direction)
    }
}

/// Moves an entity by one step of `dist`; returns its new position and
/// direction.
pub fn step(
    maze: &Maze,
    position: Position,
    direction: Direction,
    next_direction: Direction,
    dist: i64,
    allow_house: bool,
) -> (out: (Position, Direction))
    requires
        in_reach(position@),
        0 <= dist <= DIST_LIMIT,
    ensures
        out.0@ == stepped(
            maze@,
            Mover { position: position@, direction, pending: next_direction },
            dist as int,
            allow_house,
        ).position,
        out.1 == stepped(
            maze@,
            Mover { position: position@, direction, pending: next_direction },
            dist as int,
            allow_house,
        ).direction,
{
    let (from, facing) = try_turn(maze, position, direction, next_direction, dist, allow_house);
    let next = move_by(from, facing, dist);
    let stopped = (reaches_center(from, next, facing) || passes_center(from, next, facing))
        && !neighbor_walkable(maze, from, facing, allow_house);
    assert(stopped == blocked(maze@, from@, facing, dist as int, allow_house));
    let landed = if stopped {
        center_of(from)
    } else {
        next
    };
    (wrap(landed), facing)
}

} // verus!
