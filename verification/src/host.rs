//! The surface that a host drives: a game that is set up and steered by
//! short words, and read back by tags and snapshots.

use vstd::prelude::*;
use vstd::string::*;
use crate::entities::{ghost_views, Direction, GhostEntity, GhostView, PacManView};
use crate::maze::{CellType, Maze};
use crate::state::{
    after_tick, initial_game, mode_name, phase_name, well_formed, within_limits, GameMode, GamePhase,
    GameStateInner, GameView,
};
use crate::text::{spells, spells_word};

verus! {

// ─── Words ──────────────────────────────────────────────────────────────────

/// The game mode that a word names: `classic` or `pvp`, in any case.
pub open spec fn mode_of_name(name: Seq<char>) -> Option<GameMode> {
    if spells(name, "classic"@) {
        Some(GameMode::Classic)
    } else if spells(name, "pvp"@) {
        Some(GameMode::PvP)
    } else {
        None
    }
}

/// The direction that a word names: `up`, `down`, `left` or `right`, in any
/// case.
pub open spec fn direction_of_name(name: Seq<char>) -> Option<Direction> {
    if spells(name, "up"@) {
        Some(Direction::Up)
    } else if spells(name, "down"@) {
        Some(Direction::Down)
    } else if spells(name, "left"@) {
        Some(Direction::Left)
    } else if spells(name, "right"@) {
        Some(Direction::Right)
    } else {
        None
    }
}

/// What is said of a word that names no game mode.
pub open spec fn invalid_mode_message(name: Seq<char>) -> Seq<char> {
    "Invalid game mode: '"@ + name + "'. Use 'classic' or 'pvp'."@
}

/// The greeting for a name.
pub open spec fn greeting(name: Seq<char>) -> Seq<char> {
    "Hello from Rust, "@ + name + "! 🦀"@
}

/// Reads the name of a game mode.
pub fn parse_mode(name: &str) -> (mode: Option<GameMode>)
    ensures
        mode == mode_of_name(name@),
{
    if spells_word(name, "classic") {
        Some(GameMode::Classic)
    } else if spells_word(name, "pvp") {
        Some(GameMode::PvP)
    } else {
        None
    }
}

/// Reads the name of a direction.
pub fn parse_direction(name: &str) -> (dir: Option<Direction>)
    ensures
        dir == direction_of_name(name@),
{
    if spells_word(name, "up") {
        Some(Direction::Up)
    } else if spells_word(name, "down") {
        Some(Direction::Down)
    } else if spells_word(name, "left") {
        Some(Direction::Left)
    } else if spells_word(name, "right") {
        Some(Direction::Right)
    } else {
        None
    }
}

/// A greeting, to show that host and engine can talk.
pub fn greet(name: &str) -> (text: String)
    ensures
        text@ == greeting(name@),
{
    let mut text = String::from_str("Hello from Rust, ");
    text.append(name);
    text.append("! 🦀");
    text
}

// ─── Input ──────────────────────────────────────────────────────────────────

/// The phase after an input: the first input starts a game that is ready.
pub open spec fn started(phase: GamePhase) -> GamePhase {
    if phase == GamePhase::Ready {
        GamePhase::Playing
    } else {
        phase
    }
}

/// The state after player 1 has asked for a direction: Pac-Man turns that way
/// as soon as he can. A word that names no direction changes nothing.
pub open spec fn after_player1(v: GameView, dir: Option<Direction>) -> GameView {
    match dir {
        Some(d) => GameView {
            pacman: PacManView { next_direction: d, ..v.pacman },
            phase: started(v.phase),
            ..v
        },
        None => v,
    }
}

/// The state after player 2 has asked for a direction: the first ghost turns
/// that way as soon as it can, while it is player-controlled. A word that
/// names no direction changes nothing.
pub open spec fn after_player2(v: GameView, dir: Option<Direction>) -> GameView {
    match dir {
        Some(d) => GameView {
            ghosts: if v.ghosts.len() > 0 {
                v.ghosts.update(0, GhostView { next_direction: d, ..v.ghosts[0] })
            } else {
                v.ghosts
            },
            phase: started(v.phase),
            ..v
        },
        None => v,
    }
}

// ─── Snapshots ──────────────────────────────────────────────────────────────

/// A copy of a maze, cell by cell.
pub fn copy_maze(maze: &Maze) -> (copy: Maze)
    ensures
        copy@ == maze@,
        copy.width == maze.width,
        copy.height == maze.height,
{
    let mut cells: Vec<Vec<CellType>> = Vec::new();
    let rows: usize = maze.cells.len();
    let mut row: usize = 0;
    while row < rows
        invariant
            row <= rows,
            rows == maze.cells@.len(),
            cells@.len() == row,
            forall|r: int| 0 <= r < row ==> (#[trigger] cells@[r])@ == maze.cells@[r]@,
        decreases rows - row,
    {
        let mut line: Vec<CellType> = Vec::new();
        let cols: usize = maze.cells[row].len();
        let mut col: usize = 0;
        while col < cols
            invariant
                row < rows,
                rows == maze.cells@.len(),
                col <= cols,
                cols == maze.cells@[row as int]@.len(),
                line@.len() == col,
                forall|c: int| 0 <= c < col ==> (#[trigger] line@[c]) == maze.cells@[row as int]@[c],
            decreases cols - col,
        {
            line.push(maze.cells[row][col]);
            col += 1;
        }
        assert(line@ =~= maze.cells@[row as int]@);
        cells.push(line);
        row += 1;
    }
    let copy = Maze { cells, width: maze.width, height: maze.height };
    assert(copy@ =~= maze@);
    copy
}

/// A copy of a game state, field by field.
pub fn copy_state(game: &GameStateInner) -> (copy: GameStateInner)
    ensures
        copy@ == game@,
        copy.wf() == game.wf(),
{
    let mut ghosts: Vec<GhostEntity> = Vec::new();
    let n: usize = game.ghosts.len();
    let mut i: usize = 0;
    while i < n
        invariant
            i <= n,
            n == game.ghosts@.len(),
            ghosts@.len() == i,
            forall|j: int| 0 <= j < i ==> (#[trigger] ghosts@[j]) == game.ghosts@[j],
        decreases n - i,
    {
        ghosts.push(game.ghosts[i]);
        i += 1;
    }
    assert(ghost_views(ghosts@) =~= ghost_views(game.ghosts@));
    GameStateInner {
        mode: game.mode,
        phase: game.phase,
        maze: copy_maze(&game.maze),
        pacman: game.pacman,
        ghosts,
        dots_remaining: game.dots_remaining,
        level: game.level,
        global_timer: game.global_timer,
        frightened_timer: game.frightened_timer,
    }
}

// ─── The game as a host sees it ─────────────────────────────────────────────

/// A game behind the host's interface. The host cannot reach into the state:
/// it changes it by input and ticks, and reads copies.
#[derive(Debug)]
pub struct GameState {
    inner: GameStateInner,
}

impl View for GameState {
    type V = GameView;

    closed spec fn view(&self) -> GameView {
        self.inner@
    }
}

impl GameState {
    /// The state behind the interface is well formed. Every game that
    /// [`GameState::new`] or [`GameState::create`] makes is, and stays so.
    pub closed spec fn wf(&self) -> bool {
        self.inner.wf()
    }

    /// A well-formed game has a well-formed value.
    pub proof fn lemma_wf(&self)
        requires
            self.wf(),
        ensures
            well_formed(self@),
    {
    }

    /// Create a new game state.
    ///
    /// `mode` is `"classic"` or `"pvp"`, in any case. See [`GameState::create`]
    /// for a word that may be neither.
    pub fn new(mode: &str) -> (game: GameState)
        requires
            mode_of_name(mode@) is Some,
        ensures
            game@ == initial_game(mode_of_name(mode@).unwrap()),
            game.wf(),
    {
        let game_mode = match parse_mode(mode) {
            Some(m) => m,
            // Not reached: the word names a mode.
            None => GameMode::Classic,
        };
        GameState { inner: GameStateInner::new(game_mode) }
    }

    /// Create a new game state from a word that may name no mode: then the
    /// error says which word it was.
    pub fn create(mode: &str) -> (made: Result<GameState, String>)
        ensures
            match mode_of_name(mode@) {
                Some(m) => made is Ok && made.unwrap()@ == initial_game(m) && made.unwrap().wf(),
                None => made is Err && made.unwrap_err()@ == invalid_mode_message(mode@),
            },
    {
        match parse_mode(mode) {
            Some(_) => Ok(GameState::new(mode)),
            None => {
                let mut message = String::from_str("Invalid game mode: '");
                message.append(mode);
                message.append("'. Use 'classic' or 'pvp'.");
                Err(message)
            },
        }
    }

    /// Sets the intended next direction for Pac-Man, and starts a game that
    /// is ready. A word that names no direction is ignored.
    pub fn set_direction(&mut self, dir: &str)
        requires
            old(self).wf(),
        ensures
            final(self)@ == after_player1(old(self)@, direction_of_name(dir@)),
            final(self).wf(),
    {
        match parse_direction(dir) {
            Some(direction) => {
                self.inner.pacman.next_direction = direction;
                if self.inner.phase == GamePhase::Ready {
                    self.inner.phase = GamePhase::Playing;
                }
            },
            None => {},
        }
    }

    /// Sets the intended next direction for player 2's ghost (Blinky), and
    /// starts a game that is ready. A word that names no direction is
    /// ignored.
    pub fn set_player2_direction(&mut self, dir: &str)
        requires
            old(self).wf(),
        ensures
            final(self)@ == after_player2(old(self)@, direction_of_name(dir@)),
            final(self).wf(),
    {
        match parse_direction(dir) {
            Some(direction) => {
                if self.inner.ghosts.len() > 0 {
                    let mut first: GhostEntity = self.inner.ghosts[0];
                    first.next_direction = direction;
                    self.inner.ghosts.set(0, first);
                }
                if self.inner.phase == GamePhase::Ready {
                    self.inner.phase = GamePhase::Playing;
                }
                assert(self.inner@.ghosts =~= after_player2(old(self)@, Some(direction)).ghosts);
            },
            None => {},
        }
    }

    /// Advance game logic by `dt` microseconds. Outside the `Playing` phase
    /// nothing happens.
    pub fn tick(&mut self, dt: u64)
        requires
            old(self).wf(),
            within_limits(old(self)@, dt as nat),
        ensures
            final(self)@ == after_tick(old(self)@, dt as nat),
            final(self).wf(),
    {
        self.inner.tick(dt);
    }

    /// Advance game logic by `dt` microseconds if the step stays within the
    /// machine's integers, and say whether it did. A step that does not is
    /// not made.
    pub fn try_tick(&mut self, dt: u64) -> (made: bool)
        requires
            old(self).wf(),
        ensures
            made == within_limits(old(self)@, dt as nat),
            made ==> final(self)@ == after_tick(old(self)@, dt as nat),
            !made ==> final(self)@ == old(self)@,
            final(self).wf(),
    {
        if self.inner.can_tick(dt) {
            self.inner.tick(dt);
            true
        } else {
            false
        }
    }

    /// A copy of the entire game state: the maze's cells, Pac-Man, the
    /// ghosts, the counters and the phase.
    pub fn snapshot(&self) -> (state: GameStateInner)
        ensures
            state@ == self@,
            state.wf() == self.wf(),
    {
        copy_state(&self.inner)
    }

    /// Get the current game mode as a string.
    pub fn get_mode(&self) -> (name: String)
        ensures
            name@ == mode_name(self@.mode),
    {
        String::from_str(self.inner.mode_str())
    }

    /// Get the current game phase as a string.
    pub fn get_phase(&self) -> (name: String)
        ensures
            name@ == phase_name(self@.phase),
    {
        String::from_str(self.inner.phase_str())
    }
}

} // verus!
