//! Laws of the game: what holds of every state and every tick.

use vstd::prelude::*;
use vstd::string::*;
use crate::entities::{
    ghost_type_at, lemma_round_tile, lemma_round_tile_center, Direction, GhostMode, GhostType, GhostView,
    PacManView, Point, Tile, HALF_TILE, TILE,
};
use crate::ghost_ai::{best_among, best_direction, candidate, house_entrance, is_open, rank, tile_dist_sq};
use crate::host::{after_player1, after_player2};
use crate::maze::{enclosed, grid_cell, lemma_classic_grid_enclosed, lemma_eat, walkable, CellType};
use crate::movement::{beyond_center, crosses_center, stepped, turned, wrapped, Mover, WRAP};
use crate::state::{
    after_collisions, after_contacts, after_ghosts, after_pacman, after_pickup, after_tick, after_timers,
    first_ghost_moved, frightened, ghost_moved, ghost_speed, global_mode, initial_game, out_of_step,
    player_controlled, revived, touching, well_formed, GameMode, GamePhase, GameView, EATEN_SPEED, FRIGHT_SPAN,
    PAC_SPEED,
};
use crate::track::{
    footing, lemma_forward_stays_on_lines, lemma_forward_stays_on_track, lemma_moved, lemma_on_track_is_walkable,
    lemma_step_stays_on_lines, lemma_step_stays_on_track, lemma_wrapped_center, on_lines, on_track,
};

verus! {

// ─── What every state keeps ─────────────────────────────────────────────────

/// The pass over the ghosts changes neither the maze nor the count of dots,
/// leaves each ghost its type, never adds a life, and ends the game only
/// with the last life.
pub proof fn lemma_contacts_keep(v: GameView, from: int)
    requires
        0 <= from,
    ensures
        after_contacts(v, from).maze == v.maze,
        after_contacts(v, from).dots_remaining == v.dots_remaining,
        after_contacts(v, from).mode == v.mode,
        after_contacts(v, from).level == v.level,
        after_contacts(v, from).global_timer == v.global_timer,
        after_contacts(v, from).frightened_timer == v.frightened_timer,
        after_contacts(v, from).pacman.position == v.pacman.position,
        after_contacts(v, from).pacman.direction == v.pacman.direction,
        after_contacts(v, from).pacman.next_direction == v.pacman.next_direction,
        after_contacts(v, from).pacman.lives <= v.pacman.lives,
        after_contacts(v, from).pacman.score >= v.pacman.score,
        after_contacts(v, from).phase == v.phase || after_contacts(v, from).phase == GamePhase::Paused || (
        after_contacts(v, from).phase == GamePhase::GameOver && after_contacts(v, from).pacman.lives == 0),
        after_contacts(v, from).ghosts.len() == v.ghosts.len(),
        forall|i: int|
            0 <= i < v.ghosts.len() ==> {
                let before = #[trigger] v.ghosts[i];
                let after = after_contacts(v, from).ghosts[i];
                &&& after.ghost_type == before.ghost_type
                &&& after.position == before.position
                &&& after.direction == before.direction
                &&& after.next_direction == before.next_direction
                &&& after.mode == before.mode || (before.mode == GhostMode::Frightened && after.mode
                    == GhostMode::Eaten)
            },
    decreases v.ghosts.len() - from,
{
    if from < v.ghosts.len() {
        let g = v.ghosts[from];
        if !touching(v.pacman.position, g.position) || g.mode == GhostMode::Eaten {
            lemma_contacts_keep(v, from + 1);
        } else if g.mode == GhostMode::Frightened {
            let next = GameView {
                pacman: PacManView { score: v.pacman.score + 200, ..v.pacman },
                ghosts: v.ghosts.update(from, GhostView { mode: GhostMode::Eaten, ..g }),
                ..v
            };
            lemma_contacts_keep(next, from + 1);
            assert forall|i: int| 0 <= i < v.ghosts.len() implies {
                let before = #[trigger] v.ghosts[i];
                let after = after_contacts(v, from).ghosts[i];
                &&& after.ghost_type == before.ghost_type
                &&& after.position == before.position
                &&& after.direction == before.direction
                &&& after.next_direction == before.next_direction
                &&& after.mode == before.mode || (before.mode == GhostMode::Frightened && after.mode
                    == GhostMode::Eaten)
            } by {
                // Only the ghost at `from` has changed, and only its mode.
                assert(next.ghosts[i].position == v.ghosts[i].position);
            }
        }
    }
}

/// A tick keeps a state well formed: the count of dots agrees with the maze,
/// the four ghosts are there in their order, Pac-Man has at most three lives,
/// and a game that is over has none left.
pub proof fn lemma_tick_keeps_well_formed(v: GameView, dt: nat)
    requires
        well_formed(v),
    ensures
        well_formed(after_tick(v, dt)),
{
    if v.phase == GamePhase::Playing {
        // Clocks and moves change no count, no type and no life.
        let moved = after_ghosts(after_pacman(after_timers(v, dt), PAC_SPEED * dt), dt);
        assert(well_formed(after_timers(v, dt)));
        assert(well_formed(moved));
        // What Pac-Man eats leaves the maze and the count together.
        let tile = moved.pacman.position.tile();
        if grid_cell(moved.maze, tile) is Some && grid_cell(moved.maze, tile).unwrap().is_consumable() {
            lemma_eat(moved.maze, tile);
        }
        let picked = after_pickup(moved);
        assert(well_formed(picked));
        lemma_contacts_keep(picked, 0);
        assert forall|i: int| 0 <= i < 4 implies (#[trigger] after_contacts(picked, 0).ghosts[i]).ghost_type
            == ghost_type_at(i) by {
            assert(picked.ghosts[i].ghost_type == ghost_type_at(i));
        }
    }
}

/// What a tick of a game in play does to the clocks and to Pac-Man's place.
///
/// The global timer runs unless the ghosts are frightened. Pac-Man makes one
/// step of the movement kernel through the maze as it was, at 22 position
/// units per microsecond. The game's mode, its level and the turn that was
/// asked for stay as they are, and so does the number of ghosts.
pub proof fn lemma_tick_frame(v: GameView, dt: nat)
    requires
        v.phase == GamePhase::Playing,
    ensures
        after_tick(v, dt).global_timer == if v.frightened_timer > 0 {
            v.global_timer
        } else {
            v.global_timer + dt
        },
        ({
            let m = stepped(
                v.maze,
                Mover {
                    position: v.pacman.position,
                    direction: v.pacman.direction,
                    pending: v.pacman.next_direction,
                },
                PAC_SPEED * dt,
                false,
            );
            &&& after_tick(v, dt).pacman.position == m.position
            &&& after_tick(v, dt).pacman.direction == m.direction
        }),
        after_tick(v, dt).pacman.next_direction == v.pacman.next_direction,
        after_tick(v, dt).pacman.lives <= v.pacman.lives,
        after_tick(v, dt).pacman.score >= v.pacman.score,
        after_tick(v, dt).mode == v.mode,
        after_tick(v, dt).level == v.level,
        after_tick(v, dt).ghosts.len() == v.ghosts.len(),
        after_tick(v, dt).phase != GamePhase::Ready,
{
    let c = after_ghosts(after_pacman(after_timers(v, dt), PAC_SPEED * dt), dt);
    lemma_contacts_keep(after_pickup(c), 0);
}

/// Input keeps a state well formed.
pub proof fn lemma_input_keeps_well_formed(v: GameView, dir: Option<Direction>)
    requires
        well_formed(v),
    ensures
        well_formed(after_player1(v, dir)),
        well_formed(after_player2(v, dir)),
{
    assert forall|i: int| 0 <= i < 4 implies (#[trigger] after_player2(v, dir).ghosts[i]).ghost_type
        == ghost_type_at(i) by {
        assert(v.ghosts[i].ghost_type == ghost_type_at(i));
    }
}

/// In a well-formed state each of the four ghost types occurs exactly once.
pub proof fn lemma_each_ghost_once(v: GameView, ghost_type: GhostType)
    requires
        well_formed(v),
    ensures
        exists|i: int|
            0 <= i < 4 && (#[trigger] v.ghosts[i]).ghost_type == ghost_type && forall|j: int|
                0 <= j < 4 && (#[trigger] v.ghosts[j]).ghost_type == ghost_type ==> j == i,
{
    let i: int = match ghost_type {
        GhostType::Blinky => 0,
        GhostType::Pinky => 1,
        GhostType::Inky => 2,
        GhostType::Clyde => 3,
    };
    assert(v.ghosts[i].ghost_type == ghost_type);
    assert forall|j: int| 0 <= j < 4 && (#[trigger] v.ghosts[j]).ghost_type == ghost_type implies j == i by {
    }
}

// ─── Determinism ────────────────────────────────────────────────────────────

/// What a host can do to a game.
pub enum Input {
    /// Let `dt` microseconds pass.
    Tick { dt: nat },
    /// Player 1 asks for a direction, by a word that may name none.
    Player1 { dir: Option<Direction> },
    /// Player 2 asks for a direction, by a word that may name none.
    Player2 { dir: Option<Direction> },
}

/// The state after one input.
pub open spec fn after_input(v: GameView, input: Input) -> GameView {
    match input {
        Input::Tick { dt } => after_tick(v, dt),
        Input::Player1 { dir } => after_player1(v, dir),
        Input::Player2 { dir } => after_player2(v, dir),
    }
}

/// The state after a trace of inputs, first to last.
pub open spec fn after_inputs(v: GameView, inputs: Seq<Input>) -> GameView
    decreases inputs.len(),
{
    if inputs.len() == 0 {
        v
    } else {
        after_input(after_inputs(v, inputs.drop_last()), inputs.last())
    }
}

/// Two games that start equal and are fed the same inputs are equal after
/// every one of them.
pub proof fn lemma_deterministic(a: GameView, b: GameView, inputs: Seq<Input>, n: int)
    requires
        a == b,
        0 <= n <= inputs.len(),
    ensures
        after_inputs(a, inputs.take(n)) == after_inputs(b, inputs.take(n)),
{
}

/// A trace of inputs keeps a state well formed.
pub proof fn lemma_inputs_keep_well_formed(v: GameView, inputs: Seq<Input>)
    requires
        well_formed(v),
    ensures
        well_formed(after_inputs(v, inputs)),
    decreases inputs.len(),
{
    if inputs.len() > 0 {
        lemma_inputs_keep_well_formed(v, inputs.drop_last());
        let w = after_inputs(v, inputs.drop_last());
        match inputs.last() {
            Input::Tick { dt } => lemma_tick_keeps_well_formed(w, dt),
            Input::Player1 { dir } => lemma_input_keeps_well_formed(w, dir),
            Input::Player2 { dir } => lemma_input_keeps_well_formed(w, dir),
        }
    }
}

// ─── Turning back ───────────────────────────────────────────────────────────

/// A mover that is asked to turn back does so in its next step, wherever it
/// stands.
pub proof fn lemma_reversal_is_free(grid: Seq<Seq<CellType>>, m: Mover, d: int, allow_house: bool)
    requires
        m.pending == m.direction.reversed(),
    ensures
        turned(grid, m, d, allow_house).position == m.position,
        stepped(grid, m, d, allow_house).direction == m.direction.reversed(),
{
}

/// Pac-Man, asked to turn back, faces the other way after the next tick of a
/// game in play.
pub proof fn lemma_pacman_turns_back(v: GameView, dt: nat)
    requires
        v.phase == GamePhase::Playing,
        v.pacman.next_direction == v.pacman.direction.reversed(),
    ensures
        after_tick(v, dt).pacman.direction == v.pacman.direction.reversed(),
{
    let c = after_ghosts(after_pacman(after_timers(v, dt), PAC_SPEED * dt), dt);
    lemma_contacts_keep(after_pickup(c), 0);
}

// ─── The way a ghost takes ──────────────────────────────────────────────────

/// Where any direction is open, the best among the first `n` candidates is
/// an open one among them, and no open one among them is nearer to the
/// target, nor as near and earlier in the order.
pub proof fn lemma_best_among(
    grid: Seq<Seq<CellType>>,
    tile: Tile,
    facing: Direction,
    target: Tile,
    allow_house: bool,
    n: int,
)
    requires
        0 <= n <= 4,
    ensures
        match best_among(grid, tile, facing, target, allow_house, n) {
            Some(best) => {
                &&& rank(best) < n
                &&& is_open(grid, tile, facing, allow_house, best)
                &&& forall|other: Direction|
                    rank(other) < n && #[trigger] is_open(grid, tile, facing, allow_house, other) ==> {
                        let near = tile_dist_sq(tile.neighbor(best), target);
                        let far = tile_dist_sq(tile.neighbor(other), target);
                        near < far || (near == far && rank(best) <= rank(other))
                    }
            },
            None => forall|other: Direction|
                rank(other) < n ==> !#[trigger] is_open(grid, tile, facing, allow_house, other),
        },
    decreases n,
{
    if n > 0 {
        lemma_best_among(grid, tile, facing, target, allow_house, n - 1);
        let c = candidate(n - 1);
        assert forall|other: Direction| rank(other) < n implies rank(other) < n - 1 || other == c by {
        }
    }
}

/// The direction a ghost takes at a tile center.
///
/// Where some direction other than the way back leads onto a walkable tile,
/// the ghost takes such a direction: the one whose tile is nearest to the
/// target, and among equally near ones the first in the order up, left,
/// down, right. It turns back only in a dead end.
pub proof fn lemma_best_direction(
    grid: Seq<Seq<CellType>>,
    tile: Tile,
    facing: Direction,
    target: Tile,
    allow_house: bool,
)
    ensures
        ({
            let best = best_direction(grid, tile, facing, target, allow_house);
            if exists|dir: Direction| is_open(grid, tile, facing, allow_house, dir) {
                &&& is_open(grid, tile, facing, allow_house, best)
                &&& forall|other: Direction| #[trigger]
                    is_open(grid, tile, facing, allow_house, other) ==> {
                        let near = tile_dist_sq(tile.neighbor(best), target);
                        let far = tile_dist_sq(tile.neighbor(other), target);
                        near < far || (near == far && rank(best) <= rank(other))
                    }
            } else {
                best == facing.reversed()
            }
        }),
{
    lemma_best_among(grid, tile, facing, target, allow_house, 4);
    assert forall|other: Direction| rank(other) < 4 by {
    }
}

/// A ghost never turns back at a tile center unless every other neighbor is
/// closed to it.
pub proof fn lemma_no_reverse_at_intersection(
    grid: Seq<Seq<CellType>>,
    tile: Tile,
    facing: Direction,
    target: Tile,
    allow_house: bool,
)
    requires
        best_direction(grid, tile, facing, target, allow_house) == facing.reversed(),
    ensures
        forall|dir: Direction|
            dir != facing.reversed() ==> !#[trigger] walkable(grid, tile.neighbor(dir), allow_house),
{
    lemma_best_direction(grid, tile, facing, target, allow_house);
    assert forall|dir: Direction| dir != facing.reversed() implies !#[trigger] walkable(
        grid,
        tile.neighbor(dir),
        allow_house,
    ) by {
        if walkable(grid, tile.neighbor(dir), allow_house) {
            assert(is_open(grid, tile, facing, allow_house, dir));
        }
    }
}

// ─── The schedule ───────────────────────────────────────────────────────────

/// When, outside frightened time, some ghost in `Scatter` or `Chase` is out
/// of step with the schedule, the tick of the clocks turns every ghost in
/// `Scatter` or `Chase` back, once, and puts it into the scheduled mode. A
/// frightened or eaten ghost is left as it is.
pub proof fn lemma_forced_reversal(v: GameView, dt: nat, i: int)
    requires
        v.frightened_timer == 0,
        out_of_step(v.ghosts, global_mode(v.global_timer + dt)),
        0 <= i < v.ghosts.len(),
    ensures
        after_timers(v, dt).ghosts.len() == v.ghosts.len(),
        v.ghosts[i].mode.is_scheduled() ==> {
            &&& after_timers(v, dt).ghosts[i].direction == v.ghosts[i].direction.reversed()
            &&& after_timers(v, dt).ghosts[i].mode == global_mode(v.global_timer + dt)
            &&& after_timers(v, dt).ghosts[i].position == v.ghosts[i].position
        },
        !v.ghosts[i].mode.is_scheduled() ==> after_timers(v, dt).ghosts[i] == v.ghosts[i],
{
}

/// When the schedule changes between `Scatter` and `Chase` on a tick outside
/// frightened time, a ghost that followed the schedule turns back.
pub proof fn lemma_schedule_change_reverses(v: GameView, dt: nat, i: int)
    requires
        v.frightened_timer == 0,
        global_mode(v.global_timer + dt) != global_mode(v.global_timer),
        0 <= i < v.ghosts.len(),
        v.ghosts[i].mode == global_mode(v.global_timer),
    ensures
        after_timers(v, dt).ghosts[i].direction == v.ghosts[i].direction.reversed(),
        after_timers(v, dt).ghosts[i].mode == global_mode(v.global_timer + dt),
{
    lemma_forced_reversal(v, dt, i);
}

/// Without a ghost out of step, and without fright running out, the tick of
/// the clocks leaves every ghost as it is.
pub proof fn lemma_no_reversal_in_step(v: GameView, dt: nat)
    requires
        v.frightened_timer == 0,
        !out_of_step(v.ghosts, global_mode(v.global_timer + dt)),
    ensures
        after_timers(v, dt).ghosts == v.ghosts,
{
}

// ─── Power pellets ──────────────────────────────────────────────────────────

/// Eating a power pellet starts the frightened timer and frightens every
/// ghost that is not eaten; each of them turns back.
pub proof fn lemma_pellet_frightens(v: GameView, i: int)
    requires
        grid_cell(v.maze, v.pacman.position.tile()) == Some(CellType::PowerPellet),
        0 <= i < v.ghosts.len(),
    ensures
        after_pickup(v).frightened_timer == FRIGHT_SPAN,
        after_pickup(v).frightened_timer > 0,
        after_pickup(v).pacman.score == v.pacman.score + 50,
        after_pickup(v).ghosts.len() == v.ghosts.len(),
        after_pickup(v).ghosts[i] == frightened(v.ghosts[i]),
        v.ghosts[i].mode != GhostMode::Eaten ==> after_pickup(v).ghosts[i].mode == GhostMode::Frightened,
        v.ghosts[i].mode == GhostMode::Eaten ==> after_pickup(v).ghosts[i] == v.ghosts[i],
{
}

/// After the collisions of a tick on which Pac-Man eats a power pellet, the
/// frightened timer runs, and every ghost that was not eaten before is
/// frightened, or has been eaten in its turn.
pub proof fn lemma_pellet_frightens_through_collisions(v: GameView, i: int)
    requires
        grid_cell(v.maze, v.pacman.position.tile()) == Some(CellType::PowerPellet),
        0 <= i < v.ghosts.len(),
    ensures
        after_collisions(v).frightened_timer == FRIGHT_SPAN,
        after_collisions(v).ghosts.len() == v.ghosts.len(),
        after_collisions(v).ghosts[i].mode == GhostMode::Frightened || after_collisions(v).ghosts[i].mode
            == GhostMode::Eaten,
{
    lemma_pellet_frightens(v, i);
    lemma_contacts_keep(after_pickup(v), 0);
    let scared = after_pickup(v).ghosts[i];
    assert(scared.mode == GhostMode::Frightened || scared.mode == GhostMode::Eaten);
}

// ─── Keeping to the corridors ───────────────────────────────────────────────

/// Pac-Man is on track: on the lines of the maze and on a tile that is
/// walkable for him.
pub open spec fn pacman_on_track(v: GameView) -> bool {
    on_track(v.maze, v.pacman.position, v.pacman.direction, false)
}

/// A ghost keeps to the lines of the maze.
pub open spec fn ghost_on_lines(g: GhostView) -> bool {
    on_lines(g.position, g.direction)
}

/// A ghost is on track: on the lines of the maze and on a tile that is
/// walkable for it. The ghost house is open to an eaten ghost only.
pub open spec fn ghost_on_track(grid: Seq<Seq<CellType>>, g: GhostView) -> bool {
    on_track(grid, g.position, g.direction, g.mode == GhostMode::Eaten)
}

/// Pac-Man and every ghost keep to the lines of the maze.
pub open spec fn all_on_lines(v: GameView) -> bool {
    &&& on_lines(v.pacman.position, v.pacman.direction)
    &&& forall|i: int| 0 <= i < v.ghosts.len() ==> ghost_on_lines(#[trigger] v.ghosts[i])
}

/// Turning back leaves a mover on its line.
pub proof fn lemma_reversed_on_lines(p: Point, dir: Direction)
    ensures
        on_lines(p, dir.reversed()) == on_lines(p, dir),
{
}

/// A tick changes no wall: every tile is as walkable after it as before.
pub proof fn lemma_tick_keeps_walls(v: GameView, dt: nat)
    requires
        well_formed(v),
    ensures
        forall|t: Tile, allow_house: bool|
            walkable(after_tick(v, dt).maze, t, allow_house) == walkable(v.maze, t, allow_house),
{
    if v.phase == GamePhase::Playing {
        let c = after_ghosts(after_pacman(after_timers(v, dt), PAC_SPEED * dt), dt);
        let tile = c.pacman.position.tile();
        if grid_cell(c.maze, tile) is Some && grid_cell(c.maze, tile).unwrap().is_consumable() {
            lemma_eat(c.maze, tile);
        }
        lemma_contacts_keep(after_pickup(c), 0);
    }
}

/// A ghost's move keeps it to the lines, as long as it covers no more than
/// the width of the maze less half a tile.
pub proof fn lemma_ghost_stays_on_lines(
    grid: Seq<Seq<CellType>>,
    mode: GameMode,
    g: GhostView,
    pacman: PacManView,
    blinky: Point,
    global_timer: nat,
    frightened_timer: nat,
    dt: nat,
)
    requires
        ghost_on_lines(g),
        ghost_speed(g.mode) * dt <= WRAP - HALF_TILE,
    ensures
        ghost_on_lines(ghost_moved(grid, mode, g, pacman, blinky, global_timer, frightened_timer, dt)),
{
    let d = ghost_speed(g.mode) * dt;
    let r = revived(g, global_timer, frightened_timer);
    if player_controlled(mode, r) {
        lemma_step_stays_on_lines(
            grid,
            Mover { position: r.position, direction: r.direction, pending: r.next_direction },
            d,
            false,
        );
    } else {
        let reached = crosses_center(r.position, r.position.moved(r.direction, d), r.direction);
        lemma_forward_stays_on_lines(r.position, r.direction, d, reached);
        if reached {
            // On a center a mover is on both lines, whichever way it turns.
            lemma_round_tile(r.position.x);
            lemma_round_tile_center(r.position.tile().row);
            lemma_wrapped_center(r.position.tile().col);
        }
    }
}

/// A tick keeps Pac-Man and every ghost to the lines of the maze: within the
/// span of the tunnel, each on the line through the tile centers along which
/// it moves. This holds of steps up to the width of the maze less half a
/// tile, for the fastest ghost.
pub proof fn lemma_tick_keeps_on_lines(v: GameView, dt: nat)
    requires
        all_on_lines(v),
        EATEN_SPEED * dt <= WRAP - HALF_TILE,
    ensures
        all_on_lines(after_tick(v, dt)),
{
    if v.phase == GamePhase::Playing {
        let a = after_timers(v, dt);
        assert forall|i: int| 0 <= i < a.ghosts.len() implies ghost_on_lines(#[trigger] a.ghosts[i]) by {
            lemma_reversed_on_lines(v.ghosts[i].position, v.ghosts[i].direction);
        }
        let b = after_pacman(a, PAC_SPEED * dt);
        lemma_step_stays_on_lines(
            a.maze,
            Mover { position: a.pacman.position, direction: a.pacman.direction, pending: a.pacman.next_direction },
            PAC_SPEED * dt,
            false,
        );
        let c = after_ghosts(b, dt);
        let first = first_ghost_moved(b, dt);
        assert forall|i: int| 0 <= i < c.ghosts.len() implies ghost_on_lines(#[trigger] c.ghosts[i]) by {
            let g = b.ghosts[i];
            assert(ghost_speed(g.mode) * dt <= EATEN_SPEED * dt) by (nonlinear_arith)
                requires
                    0 <= ghost_speed(g.mode) <= EATEN_SPEED,
            ;
            lemma_ghost_stays_on_lines(
                b.maze,
                b.mode,
                g,
                b.pacman,
                if i == 0 {
                    g.position
                } else {
                    first.position
                },
                b.global_timer,
                b.frightened_timer,
                dt,
            );
        }
        let e = after_pickup(c);
        assert forall|i: int| 0 <= i < e.ghosts.len() implies ghost_on_lines(#[trigger] e.ghosts[i]) by {
            lemma_reversed_on_lines(c.ghosts[i].position, c.ghosts[i].direction);
        }
        lemma_contacts_keep(e, 0);
        let f = after_contacts(e, 0);
        assert forall|i: int| 0 <= i < f.ghosts.len() implies ghost_on_lines(#[trigger] f.ghosts[i]) by {
            assert(ghost_on_lines(e.ghosts[i]));
        }
    }
}

/// In a fresh game Pac-Man and every ghost keep to the lines, and Pac-Man is
/// on track.
pub proof fn lemma_fresh_game_on_track(mode: GameMode)
    ensures
        well_formed(initial_game(mode)),
        all_on_lines(initial_game(mode)),
        pacman_on_track(initial_game(mode)),
        walkable(initial_game(mode).maze, house_entrance(), false),
{
    let v = initial_game(mode);
    lemma_classic_grid_enclosed();
    reveal_strlit("Wo..WW................WW..oW");
    reveal_strlit("WEEEWW.WW..........WW.WWEEEW");
    lemma_round_tile_center(14);
    lemma_round_tile_center(23);
    lemma_round_tile_center(11);
    lemma_round_tile_center(12);
    lemma_round_tile_center(16);
    assert forall|i: int| 0 <= i < v.ghosts.len() implies ghost_on_lines(#[trigger] v.ghosts[i]) by {
    }
}

/// An input keeps Pac-Man on track and everyone on the lines: it changes no
/// place and no direction.
pub proof fn lemma_input_keeps_on_track(v: GameView, dir: Option<Direction>)
    ensures
        pacman_on_track(v) ==> pacman_on_track(after_player1(v, dir)) && pacman_on_track(after_player2(v, dir)),
        all_on_lines(v) ==> all_on_lines(after_player1(v, dir)) && all_on_lines(after_player2(v, dir)),
{
    if all_on_lines(v) {
        assert forall|i: int| 0 <= i < v.ghosts.len() implies ghost_on_lines(
            #[trigger] after_player2(v, dir).ghosts[i],
        ) by {
            assert(ghost_on_lines(v.ghosts[i]));
        }
    }
}

/// In a well-formed state, a tick in which Pac-Man covers less than half a
/// tile keeps him on track: on a walkable tile, within the span of the
/// tunnel, and inside the rows of the grid.
pub proof fn lemma_pacman_stays_on_track(v: GameView, dt: nat)
    requires
        well_formed(v),
        pacman_on_track(v),
        PAC_SPEED * dt < HALF_TILE,
    ensures
        pacman_on_track(after_tick(v, dt)),
{
    if v.phase == GamePhase::Playing {
        let a = after_timers(v, dt);
        lemma_step_stays_on_track(
            a.maze,
            Mover { position: a.pacman.position, direction: a.pacman.direction, pending: a.pacman.next_direction },
            PAC_SPEED * dt,
            false,
        );
        let c = after_ghosts(after_pacman(a, PAC_SPEED * dt), dt);
        lemma_contacts_keep(after_pickup(c), 0);
        lemma_tick_keeps_walls(v, dt);
    }
}

/// Every tick of the trace is short enough for Pac-Man to cover less than
/// half a tile in it.
pub open spec fn short_ticks(inputs: Seq<Input>) -> bool {
    forall|i: int|
        0 <= i < inputs.len() ==> match #[trigger] inputs[i] {
            Input::Tick { dt } => PAC_SPEED * dt < HALF_TILE,
            _ => true,
        }
}

/// From a fresh game on, whatever the players do, Pac-Man stands on a
/// walkable tile, his `x` within the span of the tunnel and his `y` inside
/// the grid, as long as every tick is short enough for him to cover less
/// than half a tile in it.
pub proof fn lemma_pacman_always_on_track(mode: GameMode, inputs: Seq<Input>)
    requires
        short_ticks(inputs),
    ensures
        well_formed(after_inputs(initial_game(mode), inputs)),
        pacman_on_track(after_inputs(initial_game(mode), inputs)),
        ({
            let v = after_inputs(initial_game(mode), inputs);
            &&& walkable(v.maze, v.pacman.position.tile(), false)
            &&& -HALF_TILE <= v.pacman.position.x < WRAP - HALF_TILE
            &&& 0 <= v.pacman.position.y < 31 * TILE
        }),
    decreases inputs.len(),
{
    lemma_fresh_game_on_track(mode);
    let v = after_inputs(initial_game(mode), inputs);
    if inputs.len() > 0 {
        let earlier = inputs.drop_last();
        assert forall|i: int| 0 <= i < earlier.len() implies match #[trigger] earlier[i] {
            Input::Tick { dt } => PAC_SPEED * dt < HALF_TILE,
            _ => true,
        } by {
        }
        lemma_pacman_always_on_track(mode, earlier);
        let w = after_inputs(initial_game(mode), earlier);
        match inputs.last() {
            Input::Tick { dt } => {
                lemma_tick_keeps_well_formed(w, dt);
                lemma_pacman_stays_on_track(w, dt);
            },
            Input::Player1 { dir } => {
                lemma_input_keeps_well_formed(w, dir);
                lemma_input_keeps_on_track(w, dir);
            },
            Input::Player2 { dir } => {
                lemma_input_keeps_well_formed(w, dir);
                lemma_input_keeps_on_track(w, dir);
            },
        }
    }
    lemma_on_track_is_walkable(v.maze, v.pacman.position, v.pacman.direction, false);
}

/// The move of a ghost that is on track, in a tick in which it covers less
/// than half a tile, leaves it on track, with one exception: a ghost that no
/// player steers, that stands on the center of its tile or beyond it, and
/// that has a closed tile ahead, goes on and may end up on that tile.
pub proof fn lemma_ghost_stays_on_track(
    grid: Seq<Seq<CellType>>,
    mode: GameMode,
    g: GhostView,
    pacman: PacManView,
    blinky: Point,
    global_timer: nat,
    frightened_timer: nat,
    dt: nat,
)
    requires
        enclosed(grid),
        walkable(grid, house_entrance(), false),
        ghost_on_track(grid, g),
        ghost_speed(g.mode) * dt < HALF_TILE,
    ensures
        ({
            let after = ghost_moved(grid, mode, g, pacman, blinky, global_timer, frightened_timer, dt);
            let r = revived(g, global_timer, frightened_timer);
            let next = r.position.moved(r.direction, ghost_speed(g.mode) * dt);
            ghost_on_track(grid, after) || {
                &&& !player_controlled(mode, r)
                &&& !crosses_center(r.position, next, r.direction)
                &&& beyond_center(r.position, next, r.direction)
                &&& !walkable(grid, r.position.tile().neighbor(r.direction), r.mode == GhostMode::Eaten)
                &&& after.position == wrapped(next)
                &&& !walkable(grid, footing(after.position), after.mode == GhostMode::Eaten)
            }
        }),
{
    let d = ghost_speed(g.mode) * dt;
    let r = revived(g, global_timer, frightened_timer);
    // A ghost that revives stands in front of the house, where any ghost
    // may stand: it is on track as the ghost that it has become.
    let open = r.mode == GhostMode::Eaten;
    lemma_round_tile(g.position.x);
    lemma_ghost_stays_on_lines(grid, mode, g, pacman, blinky, global_timer, frightened_timer, dt);
    if player_controlled(mode, r) {
        lemma_step_stays_on_track(
            grid,
            Mover { position: r.position, direction: r.direction, pending: r.next_direction },
            d,
            false,
        );
    } else {
        // Where the ghost goes on, it fares as a mover does that nothing
        // stops; where it reaches the center, it stops on its own tile.
        lemma_forward_stays_on_track(grid, r.position, r.direction, d, open);
        if crosses_center(r.position, r.position.moved(r.direction, d), r.direction) {
            let t = r.position.tile();
            lemma_round_tile(r.position.y);
            lemma_moved(r.position, r.direction, d);
            lemma_round_tile_center(t.col);
            lemma_round_tile_center(t.row);
        }
    }
}

} // verus!

