//! Keeping to the corridors: where a mover can be after a step.
//!
//! A mover is on track when it stands on a walkable tile, within the span of
//! the tunnel, and on the line through the tile centers along which it moves.
//! In an enclosed maze, a step shorter than half a tile keeps it so.

use vstd::prelude::*;
use crate::entities::{lemma_round_tile, lemma_round_tile_center, round_tile, Direction, Point, Tile, HALF_TILE, TILE};
use crate::maze::{enclosed, walkable, CellType, MAZE_HEIGHT, MAZE_WIDTH, TUNNEL_ROW};
use crate::movement::{blocked, stepped, turned, wrapped, wrapped_x, Mover, WRAP};

verus! {

/// The coordinate lies within the span of the tunnel: from half a tile left
/// of the first column to half a tile right of the last.
pub open spec fn in_span(x: int) -> bool {
    -HALF_TILE <= x < WRAP - HALF_TILE
}

/// The tile of the grid that a point in the span stands on: its own tile,
/// or, for a point exactly half a tile left of the first column, the first
/// tile of its row.
pub open spec fn footing(p: Point) -> Tile {
    let t = p.tile();
    if t.col < 0 {
        Tile { col: 0, row: t.row }
    } else {
        t
    }
}

/// A mover at `p` that faces `dir` keeps to the lines: it is within the span
/// of the tunnel, and on the line through the tile centers along which it
/// moves.
pub open spec fn on_lines(p: Point, dir: Direction) -> bool {
    &&& in_span(p.x)
    &&& dir.dx() == 0 ==> p.x == p.center().x
    &&& dir.dy() == 0 ==> p.y == p.center().y
}

/// A mover at `p` that faces `dir` is on track: it keeps to the lines, on a
/// walkable tile of the grid.
pub open spec fn on_track(grid: Seq<Seq<CellType>>, p: Point, dir: Direction, allow_house: bool) -> bool {
    &&& on_lines(p, dir)
    &&& walkable(grid, footing(p), allow_house)
}

/// A coordinate within half a tile of the center of tile `c`, the lower end
/// included, lies in tile `c`. Below zero the tile that starts at minus half
/// a tile does not include that end.
pub proof fn lemma_tile_covers(v: int, c: int)
    requires
        c >= 0,
        c * TILE - HALF_TILE <= v < c * TILE + HALF_TILE,
        v > -HALF_TILE,
    ensures
        round_tile(v) == c,
{
    if v >= 0 {
        assert((v + 1_000_000) / 2_000_000 == c) by (nonlinear_arith)
            requires
                c * 2_000_000 - 1_000_000 <= v < c * 2_000_000 + 1_000_000,
        ;
    } else {
        assert(c == 0) by (nonlinear_arith)
            requires
                c >= 0,
                c * 2_000_000 - 1_000_000 <= v < 0,
        ;
        assert((1_000_000 - v) / 2_000_000 == 0) by (nonlinear_arith)
            requires
                -1_000_000 < v < 0,
        ;
    }
}

/// Moving changes one coordinate, by the distance moved.
pub proof fn lemma_moved(p: Point, dir: Direction, d: int)
    ensures
        p.moved(dir, d) == match dir {
            Direction::Up => Point { x: p.x, y: p.y - d },
            Direction::Down => Point { x: p.x, y: p.y + d },
            Direction::Left => Point { x: p.x - d, y: p.y },
            Direction::Right => Point { x: p.x + d, y: p.y },
        },
{
}

/// In an enclosed maze a walkable tile of the grid lies off the top and
/// bottom rows, and one in the first or last column lies in the tunnel row,
/// whose two ends are both open.
pub proof fn lemma_border(grid: Seq<Seq<CellType>>, t: Tile, allow_house: bool)
    requires
        enclosed(grid),
        0 <= t.col < MAZE_WIDTH,
        walkable(grid, t, allow_house),
    ensures
        1 <= t.row <= MAZE_HEIGHT - 2,
        t.col == 0 || t.col == MAZE_WIDTH - 1 ==> t.row == TUNNEL_ROW,
        walkable(grid, Tile { col: 0, row: TUNNEL_ROW as int }, allow_house),
        walkable(grid, Tile { col: MAZE_WIDTH - 1, row: TUNNEL_ROW as int }, allow_house),
{
}

/// What being on track means for the place itself: the mover stands on a
/// walkable tile, its `x` lies in the span of the tunnel, and its `y` lies
/// inside the grid, at least half a tile from its upper and lower edge.
pub proof fn lemma_on_track_is_walkable(grid: Seq<Seq<CellType>>, p: Point, dir: Direction, allow_house: bool)
    requires
        enclosed(grid),
        on_track(grid, p, dir, allow_house),
    ensures
        walkable(grid, p.tile(), allow_house),
        -HALF_TILE <= p.x < MAZE_WIDTH * TILE - HALF_TILE,
        0 <= p.tile().col < MAZE_WIDTH || (p.tile().col == -1 && p.x == -HALF_TILE),
        1 <= p.tile().row <= MAZE_HEIGHT - 2,
        HALF_TILE <= p.y < MAZE_HEIGHT * TILE - 3 * HALF_TILE,
        0 <= p.y < MAZE_HEIGHT * TILE,
{
    lemma_round_tile(p.x);
    lemma_round_tile(p.y);
    lemma_border(grid, footing(p), allow_house);
}

/// The attempt to turn keeps a mover on track.
pub proof fn lemma_turn_stays_on_track(grid: Seq<Seq<CellType>>, m: Mover, d: int, allow_house: bool)
    requires
        enclosed(grid),
        on_track(grid, m.position, m.direction, allow_house),
        0 <= d < HALF_TILE,
    ensures
        on_track(
            grid,
            turned(grid, m, d, allow_house).position,
            turned(grid, m, d, allow_house).direction,
            allow_house,
        ),
{
    let t = m.position.tile();
    lemma_round_tile(m.position.x);
    lemma_round_tile(m.position.y);
    lemma_border(grid, footing(m.position), allow_house);
    // A quarter turn puts the mover on the center of its tile. Half a tile
    // left of the first column it is too far from any center to turn.
    lemma_round_tile_center(t.col);
    lemma_round_tile_center(t.row);
}

/// The step forward, with the stop in front of a closed tile and the trip
/// through the tunnel, keeps a mover on track.
pub proof fn lemma_forward_stays_on_track(
    grid: Seq<Seq<CellType>>,
    p: Point,
    dir: Direction,
    d: int,
    allow_house: bool,
)
    requires
        enclosed(grid),
        on_track(grid, p, dir, allow_house),
        0 <= d < HALF_TILE,
    ensures
        on_track(
            grid,
            wrapped(
                if blocked(grid, p, dir, d, allow_house) {
                    p.center()
                } else {
                    p.moved(dir, d)
                },
            ),
            dir,
            allow_house,
        ),
{
    let t = p.tile();
    lemma_round_tile(p.x);
    lemma_round_tile(p.y);
    lemma_border(grid, footing(p), allow_house);
    lemma_round_tile_center(t.col);
    lemma_round_tile_center(t.row);
    lemma_moved(p, dir, d);
    let next = p.moved(dir, d);
    if blocked(grid, p, dir, d, allow_house) {
        // The mover stops on the center of its tile. That tile is on the
        // grid: beside the grid no tile is closed.
        assert(t.col >= 0);
    } else {
        // The mover stays on its tile, or goes on to the next: then it has
        // passed the center, and was not stopped, so that the next tile is
        // open. Through the tunnel it comes to the other end of its row.
        match dir {
            Direction::Right => {
                if t.col < 0 {
                    if d > 0 {
                        lemma_tile_covers(next.x, 0);
                    }
                } else if next.x < t.col * TILE + HALF_TILE {
                    lemma_tile_covers(next.x, t.col);
                } else {
                    lemma_tile_covers(next.x, t.col + 1);
                    if t.col + 1 == MAZE_WIDTH && next.x - WRAP > -HALF_TILE {
                        lemma_tile_covers(next.x - WRAP, 0);
                    }
                }
            },
            Direction::Left => {
                if t.col < 0 {
                    if d > 0 {
                        lemma_tile_covers(next.x + WRAP, MAZE_WIDTH - 1);
                    }
                } else if next.x >= t.col * TILE - HALF_TILE {
                    if next.x > -HALF_TILE {
                        lemma_tile_covers(next.x, t.col);
                    }
                } else if t.col == 0 {
                    lemma_tile_covers(next.x + WRAP, MAZE_WIDTH - 1);
                } else {
                    lemma_tile_covers(next.x, t.col - 1);
                }
            },
            Direction::Down => {
                if next.y < t.row * TILE + HALF_TILE {
                    lemma_tile_covers(next.y, t.row);
                } else {
                    lemma_tile_covers(next.y, t.row + 1);
                }
            },
            Direction::Up => {
                if next.y >= t.row * TILE - HALF_TILE {
                    lemma_tile_covers(next.y, t.row);
                } else {
                    lemma_tile_covers(next.y, t.row - 1);
                }
            },
        }
    }
}

/// In an enclosed maze, a step shorter than half a tile keeps a mover on
/// track: it stays on walkable tiles, within the span of the tunnel and
/// inside the rows of the grid.
pub proof fn lemma_step_stays_on_track(grid: Seq<Seq<CellType>>, m: Mover, d: int, allow_house: bool)
    requires
        enclosed(grid),
        on_track(grid, m.position, m.direction, allow_house),
        0 <= d < HALF_TILE,
    ensures
        on_track(
            grid,
            stepped(grid, m, d, allow_house).position,
            stepped(grid, m, d, allow_house).direction,
            allow_house,
        ),
{
    lemma_turn_stays_on_track(grid, m, d, allow_house);
    let t = turned(grid, m, d, allow_house);
    lemma_forward_stays_on_track(grid, t.position, t.direction, d, allow_house);
}

/// A point on a center just beside the span, or on a center within it, is
/// on a center after the trip through the tunnel.
pub proof fn lemma_wrapped_center(col: int)
    requires
        -1 <= col <= MAZE_WIDTH,
    ensures
        in_span(wrapped_x(col * TILE)),
        wrapped_x(col * TILE) == round_tile(wrapped_x(col * TILE)) * TILE,
{
    // The center that the tunnel takes it to.
    let there: int = if col == -1 {
        MAZE_WIDTH - 1
    } else if col == MAZE_WIDTH {
        0
    } else {
        col
    };
    lemma_round_tile_center(there);
}

/// A step forward, or a stop on the center, keeps a mover to the lines. The
/// mover may start from a center just beside the span, where a turn has put
/// it.
pub proof fn lemma_forward_stays_on_lines(p: Point, dir: Direction, d: int, stop: bool)
    requires
        in_span(p.x) || p.x == -TILE,
        dir.dx() == 0 ==> p.x == p.center().x,
        dir.dy() == 0 ==> p.y == p.center().y,
        0 <= d <= WRAP - HALF_TILE,
    ensures
        on_lines(
            wrapped(
                if stop {
                    p.center()
                } else {
                    p.moved(dir, d)
                },
            ),
            dir,
        ),
{
    let t = p.tile();
    lemma_round_tile(p.x);
    lemma_round_tile(p.y);
    lemma_round_tile_center(t.row);
    lemma_moved(p, dir, d);
    lemma_wrapped_center(t.col);
}

/// A step of at most the width of the maze less half a tile keeps a mover to
/// the lines, whatever the maze: within the span of the tunnel, and on the
/// line along which it moves.
pub proof fn lemma_step_stays_on_lines(grid: Seq<Seq<CellType>>, m: Mover, d: int, allow_house: bool)
    requires
        on_lines(m.position, m.direction),
        0 <= d <= WRAP - HALF_TILE,
    ensures
        on_lines(stepped(grid, m, d, allow_house).position, stepped(grid, m, d, allow_house).direction),
{
    let p = m.position;
    lemma_round_tile(p.x);
    lemma_round_tile(p.y);
    lemma_round_tile_center(p.tile().col);
    lemma_round_tile_center(p.tile().row);
    let t = turned(grid, m, d, allow_house);
    lemma_forward_stays_on_lines(t.position, t.direction, d, blocked(grid, t.position, t.direction, d, allow_house));
}

// ─── The tunnel ─────────────────────────────────────────────────────────────

/// A mover that goes left, from less than half a tile left of the first
/// column, past the left end of the span, comes out at the right end: the
/// width of the maze further right than its step alone would take it, in the
/// same row. No wall stops it, whatever the maze.
pub proof fn lemma_tunnel_wrap(grid: Seq<Seq<CellType>>, m: Mover, d: int, allow_house: bool)
    requires
        m.direction == Direction::Left,
        m.pending == Direction::Left,
        -HALF_TILE <= m.position.x < 0,
        m.position.x - d < -HALF_TILE,
        d <= WRAP,
    ensures
        stepped(grid, m, d, allow_house).position.x == m.position.x - d + WRAP,
        stepped(grid, m, d, allow_house).position.y == m.position.y,
        stepped(grid, m, d, allow_house).direction == Direction::Left,
        in_span(stepped(grid, m, d, allow_house).position.x),
{
    lemma_round_tile(m.position.x);
    lemma_moved(m.position, m.direction, d);
    if m.position.x > -HALF_TILE {
        lemma_tile_covers(m.position.x, 0);
    }
}

/// The same on the other side: a mover that goes right, from less than half
/// a tile right of the last column, past the right end of the span, comes
/// out at the left end.
pub proof fn lemma_tunnel_wrap_right(grid: Seq<Seq<CellType>>, m: Mover, d: int, allow_house: bool)
    requires
        m.direction == Direction::Right,
        m.pending == Direction::Right,
        WRAP - TILE < m.position.x < WRAP - HALF_TILE,
        m.position.x + d >= WRAP - HALF_TILE,
        d <= WRAP,
    ensures
        stepped(grid, m, d, allow_house).position.x == m.position.x + d - WRAP,
        stepped(grid, m, d, allow_house).position.y == m.position.y,
        stepped(grid, m, d, allow_house).direction == Direction::Right,
        in_span(stepped(grid, m, d, allow_house).position.x),
{
    lemma_round_tile(m.position.x);
    lemma_moved(m.position, m.direction, d);
    lemma_tile_covers(m.position.x, MAZE_WIDTH - 1);
}

/// Through the tunnel and back: a mover that has gone left through the
/// tunnel and come out on the last column, asked to turn back and moved by
/// the same distance, is where it started.
pub proof fn lemma_tunnel_round_trip(grid: Seq<Seq<CellType>>, m: Mover, d: int, allow_house: bool)
    requires
        m.direction == Direction::Left,
        m.pending == Direction::Left,
        -HALF_TILE <= m.position.x < 0,
        m.position.x - d < -HALF_TILE,
        d <= m.position.x + 3 * HALF_TILE,
    ensures
        ({
            let there = stepped(grid, m, d, allow_house);
            let back = stepped(grid, Mover { pending: Direction::Right, ..there }, d, allow_house);
            &&& back.position == m.position
            &&& back.direction == Direction::Right
        }),
{
    lemma_tunnel_wrap(grid, m, d, allow_house);
    let there = stepped(grid, m, d, allow_house);
    lemma_round_tile(there.position.x);
    lemma_tile_covers(there.position.x, MAZE_WIDTH - 1);
    lemma_moved(there.position, Direction::Right, d);
}

} // verus!
