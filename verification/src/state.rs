//! Top-level game state: the maze, the entities and the clocks, and the
//! transition that one tick of the clock makes.
//!
//! Time is counted in whole microseconds. A tick runs in a fixed order: the
//! clocks and the ghosts' modes, Pac-Man, the ghosts from first to last, then
//! pickups and collisions.

use vstd::prelude::*;
use crate::entities::{
    ghost_type_at, ghost_views, initial_ghosts, initial_pacman, lemma_round_tile, GhostEntity, GhostMode,
    GhostType, GhostView, PacMan, PacManView, Point, Position, Tile, HALF_TILE,
};
use crate::ghost_ai::{best_direction, choose_direction, get_ghost_target, house_entrance, target_tile};
use crate::laws::{
    all_on_lines, lemma_pacman_stays_on_track, lemma_tick_keeps_on_lines, pacman_on_track,
};
use crate::maze::{
    classic_grid, consumables, enclosed, grid_cell, grid_with, lemma_count_positive, lemma_eat, CellType, Maze,
};
use crate::movement::{
    center_of, crosses_center, in_reach, move_by, reaches_center, step, stepped, wrap, wrapped, Mover,
    COORD_LIMIT, DIST_LIMIT, WRAP,
};

verus! {

// ─── Clocks and speeds ──────────────────────────────────────────────────────

/// Length of one scatter/chase cycle, in microseconds.
pub const CYCLE_SPAN: u64 = 27_000_000;

/// Length of the scatter phase that opens each cycle, in microseconds.
pub const SCATTER_SPAN: u64 = 7_000_000;

/// How long the ghosts stay frightened after a power pellet, in microseconds.
pub const FRIGHT_SPAN: u64 = 6_000_000;

/// The longest time step that one tick accepts, in microseconds.
pub const MAX_DT: u64 = 1_000_000_000_000;

/// Pac-Man's speed in position units per microsecond: 11 tiles per second.
pub const PAC_SPEED: i64 = 22;

/// A ghost's speed in position units per microsecond: 9 tiles per second.
pub const GHOST_SPEED: i64 = 18;

/// A frightened ghost's speed: half a ghost's speed.
pub const FRIGHTENED_SPEED: i64 = 9;

/// An eaten ghost's speed: twice a ghost's speed.
pub const EATEN_SPEED: i64 = 36;

/// The most that one tick can add to the score: a power pellet and four
/// frightened ghosts.
pub const MAX_GAIN: u32 = 850;

// ─── Game mode and phase ────────────────────────────────────────────────────

/// Determines whether the first ghost is AI-controlled or player-controlled.
///
/// - `Classic`: single-player; every ghost follows its AI.
/// - `PvP`: local 1v1; player 1 is Pac-Man, player 2 steers Blinky.
#[derive(Clone, Copy, Debug, PartialEq, Eq, Structural)]
pub enum GameMode {
    Classic,
    PvP,
}

/// The lifecycle phase of the game.
///
/// ```text
/// Ready -> Playing <-> Paused
///            |
///         GameOver
/// ```
#[derive(Clone, Copy, Debug, PartialEq, Eq, Structural)]
pub enum GamePhase {
    /// Waiting for the first input.
    Ready,
    /// Active gameplay.
    Playing,
    /// Stopped after a lost life or a cleared level.
    Paused,
    /// All lives lost.
    GameOver,
}

// ─── The state and its value ────────────────────────────────────────────────

/// The mathematical value of a [`GameStateInner`].
pub struct GameView {
    pub mode: GameMode,
    pub phase: GamePhase,
    /// `maze[row][col]`.
    pub maze: Seq<Seq<CellType>>,
    pub pacman: PacManView,
    pub ghosts: Seq<GhostView>,
    pub dots_remaining: nat,
    pub level: nat,
    /// Microseconds of play outside frightened time.
    pub global_timer: nat,
    /// Microseconds of frightened time that are left.
    pub frightened_timer: nat,
}

/// The complete state of a Pac-Man game.
#[derive(Clone, Debug)]
pub struct GameStateInner {
    pub mode: GameMode,
    pub phase: GamePhase,
    pub maze: Maze,
    pub pacman: PacMan,
    pub ghosts: Vec<GhostEntity>,
    pub dots_remaining: usize,
    pub level: u32,
    /// Microseconds of play outside frightened time.
    pub global_timer: u64,
    /// Microseconds of frightened time that are left.
    pub frightened_timer: u64,
}

impl View for GameStateInner {
    type V = GameView;

    open spec fn view(&self) -> GameView {
        GameView {
            mode: self.mode,
            phase: self.phase,
            maze: self.maze@,
            pacman: self.pacman@,
            ghosts: ghost_views(self.ghosts@),
            dots_remaining: self.dots_remaining as nat,
            level: self.level as nat,
            global_timer: self.global_timer as nat,
            frightened_timer: self.frightened_timer as nat,
        }
    }
}

/// What holds of every state of a game:
/// the maze is enclosed, `dots_remaining` counts the dots and power pellets
/// that are left in it, there are the four ghosts in the order Blinky, Pinky,
/// Inky, Clyde, Pac-Man has at most three lives, and the game is over only
/// when he has none.
pub open spec fn well_formed(v: GameView) -> bool {
    &&& enclosed(v.maze)
    &&& v.dots_remaining == consumables(v.maze)
    &&& v.ghosts.len() == 4
    &&& forall|i: int| 0 <= i < 4 ==> (#[trigger] v.ghosts[i]).ghost_type == ghost_type_at(i)
    &&& v.pacman.lives <= 3
    &&& v.phase == GamePhase::GameOver ==> v.pacman.lives == 0
}

/// A fresh game in the given mode.
pub open spec fn initial_game(mode: GameMode) -> GameView {
    GameView {
        mode,
        phase: GamePhase::Ready,
        maze: classic_grid(),
        pacman: initial_pacman(),
        ghosts: initial_ghosts(),
        dots_remaining: consumables(classic_grid()),
        level: 1,
        global_timer: 0,
        frightened_timer: 0,
    }
}

// ─── The mode schedule ──────────────────────────────────────────────────────

/// The mode that the schedule prescribes at a time of the global timer:
/// `Scatter` for the first seven seconds of each cycle of 27, then `Chase`.
pub open spec fn global_mode(global_timer: nat) -> GhostMode {
    if global_timer % (CYCLE_SPAN as nat) < SCATTER_SPAN {
        GhostMode::Scatter
    } else {
        GhostMode::Chase
    }
}

/// A ghost whose fright has run out: it takes up the scheduled mode. Other
/// ghosts stay as they are.
pub open spec fn recovered(g: GhostView, mode: GhostMode) -> GhostView {
    if g.mode == GhostMode::Frightened {
        GhostView { mode, ..g }
    } else {
        g
    }
}

/// A ghost at a change of the schedule: one in `Scatter` or `Chase` takes up
/// the scheduled mode and turns back. Other ghosts stay as they are.
pub open spec fn switched(g: GhostView, mode: GhostMode) -> GhostView {
    if g.mode.is_scheduled() {
        GhostView { mode, direction: g.direction.reversed(), ..g }
    } else {
        g
    }
}

/// A ghost when Pac-Man eats a power pellet: unless it is `Eaten`, it becomes
/// `Frightened` and turns back.
pub open spec fn frightened(g: GhostView) -> GhostView {
    if g.mode != GhostMode::Eaten {
        GhostView { mode: GhostMode::Frightened, direction: g.direction.reversed(), ..g }
    } else {
        g
    }
}

/// Some ghost in `Scatter` or `Chase` is in the other mode than the scheduled
/// one.
pub open spec fn out_of_step(ghosts: Seq<GhostView>, mode: GhostMode) -> bool {
    exists|i: int| 0 <= i < ghosts.len() && (#[trigger] ghosts[i]).mode.is_scheduled() && ghosts[i].mode != mode
}

/// The frightened timer after `dt`: it runs down and stops at zero.
pub open spec fn fright_left(frightened_timer: nat, dt: nat) -> nat {
    if frightened_timer > dt {
        (frightened_timer - dt) as nat
    } else {
        0
    }
}

/// The state after the clocks have advanced by `dt` and the ghosts' modes
/// have followed.
///
/// The global timer stands still while the ghosts are frightened. On the tick
/// on which the fright runs out, the ghosts that are still frightened take up
/// the scheduled mode. On any other tick without fright, if some ghost in
/// `Scatter` or `Chase` is out of step with the schedule, every such ghost
/// takes up the scheduled mode and turns back.
pub open spec fn after_timers(v: GameView, dt: nat) -> GameView {
    let was_frightened = v.frightened_timer > 0;
    let frightened_timer = fright_left(v.frightened_timer, dt);
    let global_timer = if was_frightened {
        v.global_timer
    } else {
        v.global_timer + dt
    };
    let mode = global_mode(global_timer);
    let ghosts = if was_frightened && frightened_timer == 0 {
        v.ghosts.map_values(|g: GhostView| recovered(g, mode))
    } else if frightened_timer == 0 && out_of_step(v.ghosts, mode) {
        v.ghosts.map_values(|g: GhostView| switched(g, mode))
    } else {
        v.ghosts
    };
    GameView { global_timer, frightened_timer, ghosts, ..v }
}

// ─── Movement ───────────────────────────────────────────────────────────────

/// The state after Pac-Man has moved by one step of `d`. The ghost house is
/// closed to him.
pub open spec fn after_pacman(v: GameView, d: int) -> GameView {
    let m = stepped(
        v.maze,
        Mover { position: v.pacman.position, direction: v.pacman.direction, pending: v.pacman.next_direction },
        d,
        false,
    );
    GameView { pacman: PacManView { position: m.position, direction: m.direction, ..v.pacman }, ..v }
}

/// A ghost's speed in position units per microsecond.
pub open spec fn ghost_speed(mode: GhostMode) -> int {
    match mode {
        GhostMode::Frightened => FRIGHTENED_SPEED as int,
        GhostMode::Eaten => EATEN_SPEED as int,
        _ => GHOST_SPEED as int,
    }
}

/// An eaten ghost on the tile in front of the ghost house revives: into the
/// scheduled mode, or into `Chase` while the others are still frightened.
pub open spec fn revived(g: GhostView, global_timer: nat, frightened_timer: nat) -> GhostView {
    if g.mode == GhostMode::Eaten && g.position.tile() == house_entrance() {
        GhostView {
            mode: if frightened_timer == 0 {
                global_mode(global_timer)
            } else {
                GhostMode::Chase
            },
            ..g
        }
    } else {
        g
    }
}

/// The second player steers this ghost: Blinky in a `PvP` game, while he is
/// neither frightened nor eaten.
pub open spec fn player_controlled(mode: GameMode, g: GhostView) -> bool {
    &&& mode == GameMode::PvP
    &&& g.ghost_type == GhostType::Blinky
    &&& g.mode != GhostMode::Eaten
    &&& g.mode != GhostMode::Frightened
}

/// A ghost after its move in a tick of `dt`.
///
/// Its speed goes by the mode it starts the tick in. An eaten ghost that has
/// reached the house revives first. A player-controlled ghost then moves as
/// Pac-Man does. Any other ghost keeps its direction until its step reaches
/// the center of its tile; there it stops on the center and takes the best
/// direction towards its target. Ghost house cells are open to it only while
/// it is `Eaten`.
pub open spec fn ghost_moved(
    grid: Seq<Seq<CellType>>,
    mode: GameMode,
    g: GhostView,
    pacman: PacManView,
    blinky: Point,
    global_timer: nat,
    frightened_timer: nat,
    dt: nat,
) -> GhostView {
    let d = ghost_speed(g.mode) * dt;
    let r = revived(g, global_timer, frightened_timer);
    if player_controlled(mode, r) {
        let m = stepped(
            grid,
            Mover { position: r.position, direction: r.direction, pending: r.next_direction },
            d,
            false,
        );
        GhostView { position: m.position, direction: m.direction, ..r }
    } else if crosses_center(r.position, r.position.moved(r.direction, d), r.direction) {
        let target = target_tile(r, pacman.position, pacman.direction, blinky, global_timer as int);
        GhostView {
            position: wrapped(r.position.center()),
            direction: best_direction(grid, r.position.tile(), r.direction, target, r.mode == GhostMode::Eaten),
            ..r
        }
    } else {
        GhostView { position: wrapped(r.position.moved(r.direction, d)), ..r }
    }
}

/// The first ghost after its move. Its own place stands in for Blinky's,
/// which only Inky's target depends on.
pub open spec fn first_ghost_moved(v: GameView, dt: nat) -> GhostView {
    ghost_moved(v.maze, v.mode, v.ghosts[0], v.pacman, v.ghosts[0].position, v.global_timer, v.frightened_timer, dt)
}

/// The state after the ghosts have moved, first to last. The later ghosts
/// see Blinky where his move has taken him.
pub open spec fn after_ghosts(v: GameView, dt: nat) -> GameView {
    let first = first_ghost_moved(v, dt);
    GameView {
        ghosts: Seq::new(
            v.ghosts.len(),
            |i: int|
                if i == 0 {
                    first
                } else {
                    ghost_moved(
                        v.maze,
                        v.mode,
                        v.ghosts[i],
                        v.pacman,
                        first.position,
                        v.global_timer,
                        v.frightened_timer,
                        dt,
                    )
                },
        ),
        ..v
    }
}

// ─── Collisions ─────────────────────────────────────────────────────────────

/// Two points are less than half a tile apart.
pub open spec fn touching(a: Point, b: Point) -> bool {
    (a.x - b.x) * (a.x - b.x) + (a.y - b.y) * (a.y - b.y) < HALF_TILE * HALF_TILE
}

/// The state after Pac-Man has eaten what lies on his tile.
///
/// A dot is worth 10 points. A power pellet is worth 50, starts the
/// frightened timer, and frightens every ghost that is not `Eaten`.
pub open spec fn after_pickup(v: GameView) -> GameView {
    let tile = v.pacman.position.tile();
    match grid_cell(v.maze, tile) {
        Some(CellType::Dot) => GameView {
            pacman: PacManView { score: v.pacman.score + 10, ..v.pacman },
            dots_remaining: (v.dots_remaining - 1) as nat,
            maze: grid_with(v.maze, tile, CellType::Empty),
            ..v
        },
        Some(CellType::PowerPellet) => GameView {
            pacman: PacManView { score: v.pacman.score + 50, ..v.pacman },
            dots_remaining: (v.dots_remaining - 1) as nat,
            maze: grid_with(v.maze, tile, CellType::Empty),
            frightened_timer: FRIGHT_SPAN as nat,
            ghosts: v.ghosts.map_values(|g: GhostView| frightened(g)),
            ..v
        },
        _ => v,
    }
}

/// The state after Pac-Man has lost a life: the game is over with the last
/// one, and pauses otherwise.
pub open spec fn after_loss(v: GameView) -> GameView {
    let lives: nat = if v.pacman.lives > 0 {
        (v.pacman.lives - 1) as nat
    } else {
        0
    };
    GameView {
        pacman: PacManView { lives, ..v.pacman },
        phase: if lives == 0 {
            GamePhase::GameOver
        } else {
            GamePhase::Paused
        },
        ..v
    }
}

/// The state after Pac-Man has met the ghosts from index `from` on, in order.
///
/// A frightened ghost that touches him is eaten, for 200 points. A ghost in
/// `Scatter` or `Chase` that touches him costs a life, and ends the pass: no
/// second life is lost in one tick. An eaten ghost does nothing.
pub open spec fn after_contacts(v: GameView, from: int) -> GameView
    decreases v.ghosts.len() - from,
{
    if from < 0 || from >= v.ghosts.len() {
        v
    } else {
        let g = v.ghosts[from];
        if !touching(v.pacman.position, g.position) || g.mode == GhostMode::Eaten {
            after_contacts(v, from + 1)
        } else if g.mode == GhostMode::Frightened {
            after_contacts(
                GameView {
                    pacman: PacManView { score: v.pacman.score + 200, ..v.pacman },
                    ghosts: v.ghosts.update(from, GhostView { mode: GhostMode::Eaten, ..g }),
                    ..v
                },
                from + 1,
            )
        } else {
            after_loss(v)
        }
    }
}

/// The state after the check for a cleared level: with no dot left the game
/// pauses.
pub open spec fn after_level_check(v: GameView) -> GameView {
    if v.dots_remaining == 0 {
        GameView { phase: GamePhase::Paused, ..v }
    } else {
        v
    }
}

/// The state after pickups, collisions and the check for a cleared level.
pub open spec fn after_collisions(v: GameView) -> GameView {
    after_level_check(after_contacts(after_pickup(v), 0))
}

// ─── The tick ───────────────────────────────────────────────────────────────

/// A tick of `dt` from this state stays within the machine's integers.
pub open spec fn within_limits(v: GameView, dt: nat) -> bool {
    &&& dt <= MAX_DT
    &&& v.global_timer + dt <= u64::MAX
    &&& v.pacman.score + MAX_GAIN <= u32::MAX
    &&& in_reach(v.pacman.position)
    &&& forall|i: int| 0 <= i < v.ghosts.len() ==> in_reach((#[trigger] v.ghosts[i]).position)
}

/// The state after one tick of `dt` microseconds. Outside the `Playing`
/// phase nothing changes.
pub open spec fn after_tick(v: GameView, dt: nat) -> GameView {
    if v.phase != GamePhase::Playing {
        v
    } else {
        after_collisions(after_ghosts(after_pacman(after_timers(v, dt), PAC_SPEED * dt), dt))
    }
}

/// The mode that the schedule prescribes at a time of the global timer.
pub fn scheduled_mode(global_timer: u64) -> (mode: GhostMode)
    ensures
        mode == global_mode(global_timer as nat),
{
    if global_timer % CYCLE_SPAN < SCATTER_SPAN {
        GhostMode::Scatter
    } else {
        GhostMode::Chase
    }
}

/// Lets every frightened ghost take up the scheduled mode.
pub fn recover_all(ghosts: &mut Vec<GhostEntity>, mode: GhostMode)
    ensures
        ghost_views(final(ghosts)@) == ghost_views(old(ghosts)@).map_values(|g: GhostView| recovered(g, mode)),
{
    let ghost before = ghost_views(ghosts@);
    let n: usize = ghosts.len();
    let mut i: usize = 0;
    while i < n
        invariant
            i <= n,
            n == ghosts@.len(),
            n == before.len(),
            forall|j: int| 0 <= j < i ==> (#[trigger] ghosts@[j])@ == recovered(before[j], mode),
            forall|j: int| i <= j < n ==> (#[trigger] ghosts@[j])@ == before[j],
        decreases n - i,
    {
        let mut g: GhostEntity = ghosts[i];
        if g.mode == GhostMode::Frightened {
            g.mode = mode;
        }
        ghosts.set(i, g);
        i += 1;
    }
    assert(ghost_views(ghosts@) =~= before.map_values(|g: GhostView| recovered(g, mode)));
}

/// Whether some ghost in `Scatter` or `Chase` is in the other mode than
/// `mode`.
pub fn any_out_of_step(ghosts: &Vec<GhostEntity>, mode: GhostMode) -> (found: bool)
    ensures
        found == out_of_step(ghost_views(ghosts@), mode),
{
    let n: usize = ghosts.len();
    let mut i: usize = 0;
    while i < n
        invariant
            i <= n,
            n == ghosts@.len(),
            forall|j: int|
                0 <= j < i ==> !((#[trigger] ghost_views(ghosts@)[j]).mode.is_scheduled() && ghost_views(
                    ghosts@,
                )[j].mode != mode),
        decreases n - i,
    {
        let m = ghosts[i].mode;
        if (m == GhostMode::Chase || m == GhostMode::Scatter) && m != mode {
            assert(ghost_views(ghosts@)[i as int].mode.is_scheduled());
            return true;
        }
        i += 1;
    }
    false
}

/// Lets every ghost in `Scatter` or `Chase` take up the scheduled mode and
/// turn back.
pub fn switch_all(ghosts: &mut Vec<GhostEntity>, mode: GhostMode)
    ensures
        ghost_views(final(ghosts)@) == ghost_views(old(ghosts)@).map_values(|g: GhostView| switched(g, mode)),
{
    let ghost before = ghost_views(ghosts@);
    let n: usize = ghosts.len();
    let mut i: usize = 0;
    while i < n
        invariant
            i <= n,
            n == ghosts@.len(),
            n == before.len(),
            forall|j: int| 0 <= j < i ==> (#[trigger] ghosts@[j])@ == switched(before[j], mode),
            forall|j: int| i <= j < n ==> (#[trigger] ghosts@[j])@ == before[j],
        decreases n - i,
    {
        let mut g: GhostEntity = ghosts[i];
        if g.mode == GhostMode::Chase || g.mode == GhostMode::Scatter {
            g.mode = mode;
            g.direction = g.direction.opposite();
        }
        ghosts.set(i, g);
        i += 1;
    }
    assert(ghost_views(ghosts@) =~= before.map_values(|g: GhostView| switched(g, mode)));
}

/// Frightens every ghost that is not `Eaten`, and turns it back.
pub fn frighten_all(ghosts: &mut Vec<GhostEntity>)
    ensures
        ghost_views(final(ghosts)@) == ghost_views(old(ghosts)@).map_values(|g: GhostView| frightened(g)),
{
    let ghost before = ghost_views(ghosts@);
    let n: usize = ghosts.len();
    let mut i: usize = 0;
    while i < n
        invariant
            i <= n,
            n == ghosts@.len(),
            n == before.len(),
            forall|j: int| 0 <= j < i ==> (#[trigger] ghosts@[j])@ == frightened(before[j]),
            forall|j: int| i <= j < n ==> (#[trigger] ghosts@[j])@ == before[j],
        decreases n - i,
    {
        let mut g: GhostEntity = ghosts[i];
        if g.mode != GhostMode::Eaten {
            g.mode = GhostMode::Frightened;
            g.direction = g.direction.opposite();
        }
        ghosts.set(i, g);
        i += 1;
    }
    assert(ghost_views(ghosts@) =~= before.map_values(|g: GhostView| frightened(g)));
}

/// Whether a step may start from a position.
pub fn reachable(position: Position) -> (ok: bool)
    ensures
        ok == in_reach(position@),
{
    -COORD_LIMIT <= position.x && position.x <= COORD_LIMIT && -COORD_LIMIT <= position.y && position.y
        <= COORD_LIMIT
}

/// Whether two positions are less than half a tile apart.
pub fn touches(a: Position, b: Position) -> (near: bool)
    ensures
        near == touching(a@, b@),
{
    let reach: i128 = HALF_TILE as i128;
    let dx: i128 = a.x as i128 - b.x as i128;
    let dy: i128 = a.y as i128 - b.y as i128;
    if dx >= reach || dx <= -reach || dy >= reach || dy <= -reach {
        // Half a tile apart along one axis is too far already.
        assert(dx * dx + dy * dy >= reach * reach) by (nonlinear_arith)
            requires
                reach > 0,
                dx >= reach || dx <= -reach || dy >= reach || dy <= -reach,
        ;
        return false;
    }
    assert(0 <= dx * dx <= 1_000_000_000_000 && 0 <= dy * dy <= 1_000_000_000_000) by (nonlinear_arith)
        requires
            -1_000_000 < dx < 1_000_000,
            -1_000_000 < dy < 1_000_000,
    ;
    dx * dx + dy * dy < reach * reach
}

/// Moves one ghost for a tick of `dt` microseconds.
pub fn move_ghost(
    maze: &Maze,
    mode: GameMode,
    ghost: GhostEntity,
    pacman: &PacMan,
    blinky_pos: Position,
    global_timer: u64,
    frightened_timer: u64,
    dt: u64,
) -> (moved: GhostEntity)
    requires
        in_reach(ghost.position@),
        dt <= MAX_DT,
    ensures
        moved@ == ghost_moved(
            maze@,
            mode,
            ghost@,
            pacman@,
            blinky_pos@,
            global_timer as nat,
            frightened_timer as nat,
            dt as nat,
        ),
{
    let span: i64 = dt as i64;
    let dist: i64 = match ghost.mode {
        GhostMode::Frightened => FRIGHTENED_SPEED * span,
        GhostMode::Eaten => EATEN_SPEED * span,
        _ => GHOST_SPEED * span,
    };
    let mut g: GhostEntity = ghost;
    if g.mode == GhostMode::Eaten {
        let (col, row) = g.position.to_grid();
        if col == 14 && row == 11 {
            g.mode = if frightened_timer == 0 {
                scheduled_mode(global_timer)
            } else {
                GhostMode::Chase
            };
        }
    }
    let by_player = mode == GameMode::PvP && g.ghost_type == GhostType::Blinky && g.mode != GhostMode::Eaten
        && g.mode != GhostMode::Frightened;
    if by_player {
        let (position, direction) = step(maze, g.position, g.direction, g.next_direction, dist, false);
        g.position = position;
        g.direction = direction;
    } else {
        let next = move_by(g.position, g.direction, dist);
        if reaches_center(g.position, next, g.direction) {
            let target = get_ghost_target(&g, &pacman.position, pacman.direction, &blinky_pos, global_timer);
            let tile = g.position.to_grid();
            proof {
                lemma_round_tile(g.position.x as int);
                lemma_round_tile(g.position.y as int);
            }
            let direction = choose_direction(maze, tile, g.direction, target, g.mode == GhostMode::Eaten);
            g.position = wrap(center_of(g.position));
            g.direction = direction;
        } else {
            g.position = wrap(next);
        }
    }
    g
}

impl GameStateInner {
    /// The state is well formed, and the maze's `width` and `height` say what
    /// its dimensions are.
    pub open spec fn wf(&self) -> bool {
        &&& well_formed(self@)
        &&& self.maze.wf()
    }

    /// Create a new game with the given mode.
    pub fn new(mode: GameMode) -> (game: GameStateInner)
        ensures
            game@ == initial_game(mode),
            game.wf(),
    {
        let maze = Maze::new();
        let dots = maze.dots_remaining();
        let game = GameStateInner {
            mode,
            phase: GamePhase::Ready,
            maze,
            pacman: PacMan::new(),
            ghosts: GhostEntity::create_all(),
            dots_remaining: dots,
            level: 1,
            global_timer: 0,
            frightened_timer: 0,
        };
        game
    }

    /// Get the mode as a string.
    pub fn mode_str(&self) -> (name: &'static str)
        ensures
            name@ == mode_name(self.mode),
    {
        match self.mode {
            GameMode::Classic => "classic",
            GameMode::PvP => "pvp",
        }
    }

    /// Get the phase as a string.
    pub fn phase_str(&self) -> (name: &'static str)
        ensures
            name@ == phase_name(self.phase),
    {
        match self.phase {
            GamePhase::Ready => "ready",
            GamePhase::Playing => "playing",
            GamePhase::Paused => "paused",
            GamePhase::GameOver => "gameover",
        }
    }

    /// Check if the game is over (no lives remaining).
    pub fn is_game_over(&self) -> (over: bool)
        ensures
            over == (self@.pacman.lives == 0),
    {
        self.pacman.lives == 0
    }

    /// Check if the current level is complete (all dots eaten).
    pub fn is_level_complete(&self) -> (complete: bool)
        ensures
            complete == (self@.dots_remaining == 0),
    {
        self.dots_remaining == 0
    }

    /// Advances the clocks by `dt` microseconds and lets the ghosts' modes
    /// follow the schedule.
    pub fn update_timers(&mut self, dt: u64)
        requires
            old(self).global_timer + dt <= u64::MAX,
        ensures
            final(self)@ == after_timers(old(self)@, dt as nat),
            final(self).maze == old(self).maze,
            final(self).pacman == old(self).pacman,
            final(self).ghosts@.len() == old(self).ghosts@.len(),
            forall|i: int|
                0 <= i < old(self).ghosts@.len() ==> {
                    &&& (#[trigger] final(self).ghosts@[i]).position == old(self).ghosts@[i].position
                    &&& final(self).ghosts@[i].ghost_type == old(self).ghosts@[i].ghost_type
                },
    {
        let was_frightened = self.frightened_timer > 0;
        if was_frightened {
            self.frightened_timer = if self.frightened_timer > dt {
                self.frightened_timer - dt
            } else {
                0
            };
        } else {
            self.global_timer = self.global_timer + dt;
        }
        let mode = scheduled_mode(self.global_timer);
        if was_frightened && self.frightened_timer == 0 {
            recover_all(&mut self.ghosts, mode);
        } else if self.frightened_timer == 0 && any_out_of_step(&self.ghosts, mode) {
            switch_all(&mut self.ghosts, mode);
        }
        assert(self.ghosts@.len() == ghost_views(self.ghosts@).len());
        assert forall|i: int| 0 <= i < old(self).ghosts@.len() implies {
            &&& (#[trigger] self.ghosts@[i]).position == old(self).ghosts@[i].position
            &&& self.ghosts@[i].ghost_type == old(self).ghosts@[i].ghost_type
        } by {
            assert(self@.ghosts[i] == self.ghosts@[i]@);
        }
    }

    /// Moves Pac-Man by one step of `dist` position units.
    pub fn update_pacman(&mut self, dist: i64)
        requires
            in_reach(old(self).pacman.position@),
            0 <= dist <= DIST_LIMIT,
        ensures
            final(self)@ == after_pacman(old(self)@, dist as int),
            final(self).maze == old(self).maze,
            final(self).ghosts == old(self).ghosts,
    {
        let (position, direction) = step(
            &self.maze,
            self.pacman.position,
            self.pacman.direction,
            self.pacman.next_direction,
            dist,
            false,
        );
        self.pacman.position = position;
        self.pacman.direction = direction;
    }

    /// Moves the ghosts, first to last, for a tick of `dt` microseconds.
    pub fn update_ghosts(&mut self, dt: u64)
        requires
            old(self).ghosts@.len() > 0,
            forall|i: int| 0 <= i < old(self).ghosts@.len() ==> in_reach((#[trigger] old(self).ghosts@[i]).position@),
            dt <= MAX_DT,
        ensures
            final(self)@ == after_ghosts(old(self)@, dt as nat),
            final(self).maze == old(self).maze,
            final(self).pacman == old(self).pacman,
    {
        let ghost before = self@;
        let ghost goal = after_ghosts(before, dt as nat);
        let n: usize = self.ghosts.len();
        let mut i: usize = 0;
        while i < n
            invariant
                i <= n,
                n == self.ghosts@.len(),
                n == before.ghosts.len(),
                n > 0,
                dt <= MAX_DT,
                self@ == (GameView { ghosts: self@.ghosts, ..before }),
                self.maze == old(self).maze,
                self.pacman == old(self).pacman,
                goal == after_ghosts(before, dt as nat),
                forall|j: int| 0 <= j < i ==> (#[trigger] self.ghosts@[j])@ == goal.ghosts[j],
                forall|j: int| i <= j < n ==> (#[trigger] self.ghosts@[j])@ == before.ghosts[j],
                forall|j: int| i <= j < n ==> in_reach((#[trigger] self.ghosts@[j]).position@),
            decreases n - i,
        {
            let blinky_pos: Position = self.ghosts[0].position;
            let moved = move_ghost(
                &self.maze,
                self.mode,
                self.ghosts[i],
                &self.pacman,
                blinky_pos,
                self.global_timer,
                self.frightened_timer,
                dt,
            );
            self.ghosts.set(i, moved);
            i += 1;
        }
        assert(self@.ghosts =~= goal.ghosts);
    }

    /// Lets Pac-Man eat what lies on his tile, settles his contacts with the
    /// ghosts, and pauses the game on a cleared level.
    pub fn check_collisions(&mut self)
        requires
            old(self).wf(),
            old(self).pacman.score + MAX_GAIN <= u32::MAX,
        ensures
            final(self)@ == after_collisions(old(self)@),
            final(self).wf(),
    {
        let ghost start = self@;
        let (col, row) = self.pacman.position.to_grid();
        if 0 <= col && col < 28 && 0 <= row && row < 31 {
            let r: usize = row as usize;
            let c: usize = col as usize;
            proof {
            }
            match self.maze.get_cell(r, c) {
                Some(CellType::Dot) => {
                    proof {
                        lemma_eat(self.maze@, Tile { col: col as int, row: row as int });
                        lemma_count_positive(self.maze@, Tile { col: col as int, row: row as int });
                    }
                    self.pacman.score = self.pacman.score + 10;
                    self.dots_remaining = self.dots_remaining - 1;
                    self.maze.consume(r, c);
                },
                Some(CellType::PowerPellet) => {
                    proof {
                        lemma_eat(self.maze@, Tile { col: col as int, row: row as int });
                        lemma_count_positive(self.maze@, Tile { col: col as int, row: row as int });
                    }
                    self.pacman.score = self.pacman.score + 50;
                    self.dots_remaining = self.dots_remaining - 1;
                    self.maze.consume(r, c);
                    self.frightened_timer = FRIGHT_SPAN;
                    frighten_all(&mut self.ghosts);
                },
                _ => {},
            }
        }
        assert(self@.ghosts =~= after_pickup(start).ghosts);
        assert(self@ == after_pickup(start));
        let ghost picked = self@;
        let ghost goal = after_contacts(picked, 0);

        let mut i: usize = 0;
        let mut lost = false;
        while i < 4 && !lost
            invariant
                i <= 4,
                self.wf(),
                self.pacman.score + (200 * (4 - i)) <= u32::MAX,
                lost ==> self@ == goal,
                !lost ==> after_contacts(self@, i as int) == goal,
            decreases 4 - i + if lost { 0int } else { 1int },
        {
            let g: GhostEntity = self.ghosts[i];
            let ghost now = self@;
            if touches(self.pacman.position, g.position) {
                match g.mode {
                    GhostMode::Frightened => {
                        self.pacman.score = self.pacman.score + 200;
                        let mut eaten: GhostEntity = g;
                        eaten.mode = GhostMode::Eaten;
                        self.ghosts.set(i, eaten);
                        assert(self@.ghosts =~= now.ghosts.update(
                            i as int,
                            GhostView { mode: GhostMode::Eaten, ..now.ghosts[i as int] },
                        ));
                    },
                    GhostMode::Chase | GhostMode::Scatter => {
                        if self.pacman.lives > 0 {
                            self.pacman.lives = self.pacman.lives - 1;
                        }
                        if self.pacman.lives == 0 {
                            self.phase = GamePhase::GameOver;
                        } else {
                            self.phase = GamePhase::Paused;
                        }
                        lost = true;
                        assert(self@ == after_loss(now));
                    },
                    GhostMode::Eaten => {},
                }
            }
            i += 1;
        }

        if self.dots_remaining == 0 {
            self.phase = GamePhase::Paused;
        }
    }

    /// Whether a tick of `dt` microseconds from this state stays within the
    /// machine's integers.
    pub fn can_tick(&self, dt: u64) -> (ok: bool)
        ensures
            ok == within_limits(self@, dt as nat),
    {
        if dt > MAX_DT || dt > u64::MAX - self.global_timer || self.pacman.score > u32::MAX - MAX_GAIN {
            return false;
        }
        if !reachable(self.pacman.position) {
            return false;
        }
        let n: usize = self.ghosts.len();
        let mut i: usize = 0;
        while i < n
            invariant
                i <= n,
                n == self.ghosts@.len(),
                forall|j: int| 0 <= j < i ==> in_reach((#[trigger] self@.ghosts[j]).position),
            decreases n - i,
        {
            if !reachable(self.ghosts[i].position) {
                assert(!in_reach(self@.ghosts[i as int].position));
                return false;
            }
            i += 1;
        }
        true
    }

    /// Advance the game state by `dt` microseconds. Outside the `Playing`
    /// phase nothing happens.
    ///
    /// A tick keeps Pac-Man on track, on a walkable tile inside the grid, if
    /// he covers less than half a tile in it; and it keeps him and the ghosts
    /// to the lines of the maze, within the span of the tunnel.
    pub fn tick(&mut self, dt: u64)
        requires
            old(self).wf(),
            within_limits(old(self)@, dt as nat),
        ensures
            final(self)@ == after_tick(old(self)@, dt as nat),
            final(self).wf(),
            pacman_on_track(old(self)@) && PAC_SPEED * dt < HALF_TILE ==> pacman_on_track(final(self)@),
            all_on_lines(old(self)@) && EATEN_SPEED * dt <= WRAP - HALF_TILE ==> all_on_lines(final(self)@),
    {
        proof {
            if pacman_on_track(self@) && PAC_SPEED * dt < HALF_TILE {
                lemma_pacman_stays_on_track(self@, dt as nat);
            }
            if all_on_lines(self@) && EATEN_SPEED * dt <= WRAP - HALF_TILE {
                lemma_tick_keeps_on_lines(self@, dt as nat);
            }
        }
        if self.phase != GamePhase::Playing {
            return;
        }
        assert forall|i: int| 0 <= i < self.ghosts@.len() implies in_reach((#[trigger] self.ghosts@[i]).position@) by {
            assert(self@.ghosts[i] == self.ghosts@[i]@);
        }
        self.update_timers(dt);
        self.update_pacman(PAC_SPEED * (dt as i64));
        self.update_ghosts(dt);
        self.check_collisions();
    }
}

/// The lowercase tag of a game mode.
pub open spec fn mode_name(mode: GameMode) -> Seq<char> {
    match mode {
        GameMode::Classic => "classic"@,
        GameMode::PvP => "pvp"@,
    }
}

/// The lowercase tag of a game phase.
pub open spec fn phase_name(phase: GamePhase) -> Seq<char> {
    match phase {
        GamePhase::Ready => "ready"@,
        GamePhase::Playing => "playing"@,
        GamePhase::Paused => "paused"@,
        GamePhase::GameOver => "gameover"@,
    }
}

} // verus!
