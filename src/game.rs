use vstd::prelude::*;

use crate::board::{
    filled, indices_with, lemma_indices_with, lemma_occupy_shrinks, line_owned, win_line, wins,
    Board, CellState, MoveError, Player, CELLS, LINES,
};
use crate::engine::{choose_move, engine_choice, Level};

verus! {

/// How a game stands.
#[derive(Clone, Copy, Debug, PartialEq, Eq, Structural)]
pub enum Outcome {
    Playing,
    Draw,
    Won(Player),
}

/// Whether both sides are people, or one side is the computer.
#[derive(Clone, Copy, Debug, PartialEq, Eq, Structural)]
pub enum Mode {
    OnePlayer,
    TwoPlayers,
}

/// The abstract state of a session.
pub struct GameView {
    pub cells: Seq<CellState>,
    pub player: Player,
    pub moves_made: nat,
    pub outcome: Outcome,
    pub mode: Mode,
    pub level: Level,
}

/// The identity that moves first in `mode`.
pub open spec fn first_player(mode: Mode) -> Player {
    match mode {
        Mode::OnePlayer => Player::Human,
        Mode::TwoPlayers => Player::X,
    }
}

/// `p` is one of the two identities that play in `mode`.
pub open spec fn plays_in(p: Player, mode: Mode) -> bool {
    match mode {
        Mode::OnePlayer => p == Player::Human || p == Player::AI,
        Mode::TwoPlayers => p == Player::X || p == Player::O,
    }
}

impl GameView {
    /// The invariant of a session.
    pub open spec fn valid(self) -> bool {
        &&& self.cells.len() == CELLS
        &&& self.moves_made == filled(self.cells)
        &&& plays_in(self.player, self.mode)
        &&& self.outcome == Outcome::Playing ==> {
            &&& self.moves_made < CELLS
            &&& forall|q: Player| !wins(self.cells, q)
        }
        &&& self.outcome == Outcome::Draw ==> self.moves_made == CELLS
        &&& self.outcome matches Outcome::Won(p) ==> wins(self.cells, p)
    }

    /// A fresh game in the given configuration.
    pub open spec fn fresh(mode: Mode, level: Level) -> GameView {
        GameView {
            cells: Seq::new(CELLS as nat, |i: int| CellState::Empty),
            player: first_player(mode),
            moves_made: 0,
            outcome: Outcome::Playing,
            mode,
            level,
        }
    }

    /// The result of the current player marking cell `index`.
    pub open spec fn next(self, index: int) -> Result<GameView, MoveError> {
        if self.outcome != Outcome::Playing {
            Err(MoveError::GameAlreadyOver)
        } else if index < 0 || index >= CELLS {
            Err(MoveError::IndexOutOfRange)
        } else if self.cells[index] != CellState::Empty {
            Err(MoveError::CellOccupied)
        } else {
            let cells = self.cells.update(index, CellState::Occupied(self.player));
            let moves_made = self.moves_made + 1;
            if wins(cells, self.player) {
                Ok(GameView { cells, moves_made, outcome: Outcome::Won(self.player), ..self })
            } else if moves_made == CELLS {
                Ok(GameView { cells, moves_made, outcome: Outcome::Draw, ..self })
            } else {
                Ok(GameView { cells, moves_made, player: self.player.opponent_spec(), ..self })
            }
        }
    }

    /// It is the computer's turn in a running one-player game.
    pub open spec fn computer_to_move(self) -> bool {
        &&& self.outcome == Outcome::Playing
        &&& self.mode == Mode::OnePlayer
        &&& self.player == Player::AI
    }

    /// The state after the computer's reply, `roll` standing for its random
    /// draws; the state itself where the computer is not to move.
    pub open spec fn after_computer(self, roll: int) -> GameView {
        if self.computer_to_move() {
            match self.next(engine_choice(self.cells, Player::AI, Player::Human, self.level, roll)) {
                Ok(v) => v,
                Err(_) => self,
            }
        } else {
            self
        }
    }
}

/// A mark of `p` leaves every line of another player as it was.
pub proof fn lemma_other_mark_keeps_lines(cells: Seq<CellState>, i: int, p: Player, q: Player)
    requires
        cells.len() == CELLS,
        0 <= i < CELLS,
        cells[i] == CellState::Empty,
        p != q,
    ensures
        wins(cells.update(i, CellState::Occupied(p)), q) == wins(cells, q),
{
    let after = cells.update(i, CellState::Occupied(p));
    if wins(after, q) {
        let k = choose|k: int| 0 <= k < LINES && #[trigger] line_owned(after, win_line(k), q);
        assert(line_owned(cells, win_line(k), q));
    }
    if wins(cells, q) {
        let k = choose|k: int| 0 <= k < LINES && #[trigger] line_owned(cells, win_line(k), q);
        assert(line_owned(after, win_line(k), q));
    }
}

/// A session: the game in progress and the configuration that a restart keeps.
#[derive(Clone, Copy, Debug)]
pub struct TicTacToe {
    board: Board,
    player: Player,
    moves_made: usize,
    outcome: Outcome,
    mode: Mode,
    level: Level,
}

impl View for TicTacToe {
    type V = GameView;

    closed spec fn view(&self) -> GameView {
        GameView {
            cells: self.board@,
            player: self.player,
            moves_made: self.moves_made as nat,
            outcome: self.outcome,
            mode: self.mode,
            level: self.level,
        }
    }
}

impl TicTacToe {
    /// The session satisfies the invariant of its abstract state.
    pub open spec fn wf(&self) -> bool {
        self@.valid()
    }

    /// A fresh game in the given configuration.
    pub fn with_config(mode: Mode, level: Level) -> (r: TicTacToe)
        ensures
            r@ == GameView::fresh(mode, level),
            r.wf(),
    {
        let player = match mode {
            Mode::OnePlayer => Player::Human,
            Mode::TwoPlayers => Player::X,
        };
        let r = TicTacToe {
            board: Board::new(),
            player,
            moves_made: 0,
            outcome: Outcome::Playing,
            mode,
            level,
        };
        proof {
            let cells = r@.cells;
            lemma_all_free(cells, CELLS as int);
            assert forall|q: Player| !wins(cells, q) by {
                if wins(cells, q) {
                    let k = choose|k: int| 0 <= k < LINES && #[trigger] line_owned(cells, win_line(k), q);
                    assert(line_owned(cells, win_line(k), q));
                }
            }
        }
        r
    }

    /// A fresh two-player game at the easy level.
    pub fn new() -> (r: TicTacToe)
        ensures
            r@ == GameView::fresh(Mode::TwoPlayers, Level::Easy),
            r.wf(),
    {
        TicTacToe::with_config(Mode::TwoPlayers, Level::Easy)
    }

    /// Settles the outcome after the current player's mark: a win for the
    /// current player if a line is theirs, a draw when every cell is taken.
    /// Returns whether the game has ended.
    pub fn check_for_winner(&mut self) -> (r: bool)
        ensures
            r == (wins(old(self)@.cells, old(self)@.player) || old(self)@.moves_made == CELLS),
            final(self)@ == (GameView {
                outcome: if wins(old(self)@.cells, old(self)@.player) {
                    Outcome::Won(old(self)@.player)
                } else if old(self)@.moves_made == CELLS {
                    Outcome::Draw
                } else {
                    old(self)@.outcome
                },
                ..old(self)@
            }),
    {
        if self.board.check_win(self.player) {
            self.outcome = Outcome::Won(self.player);
            return true;
        }
        if self.moves_made == CELLS {
            self.outcome = Outcome::Draw;
            return true;
        }
        false
    }

    /// The current player marks cell `index`; on a failure nothing changes.
    pub fn apply_move(&mut self, index: usize) -> (r: Result<(), MoveError>)
        requires
            old(self).wf(),
        ensures
            final(self).wf(),
            match old(self)@.next(index as int) {
                Ok(v) => r is Ok && final(self)@ == v,
                Err(e) => r == Err::<(), MoveError>(e) && *final(self) == *old(self),
            },
    {
        if self.outcome != Outcome::Playing {
            return Err(MoveError::GameAlreadyOver);
        }
        let ghost before = self@;
        match self.board.occupy(index, self.player) {
            Err(e) => {
                return Err(e);
            },
            Ok(()) => {},
        }
        proof {
            lemma_occupy_shrinks(before.cells, index as int, before.player, CELLS as int);
        }
        let ghost cells = self@.cells;
        proof {
            assert forall|q: Player| q != before.player implies !wins(cells, q) by {
                lemma_other_mark_keeps_lines(before.cells, index as int, before.player, q);
            }
        }
        self.moves_made = self.moves_made + 1;
        if !self.check_for_winner() {
            self.player = self.player.opponent();
            assert(self@.cells == cells);
            assert forall|q: Player| !wins(cells, q) by {
                if q != before.player {
                    assert(!wins(cells, q));
                }
            }
        }
        Ok(())
    }
}

/// The range of the random draw handed to the opponent engine; every count of
/// free cells and the four corners divide it, so each choice is uniform.
pub const ROLL_RANGE: usize = 2520;

/// Relies on rand's `thread_rng` and `Rng::gen_range`: a value drawn from
/// `0..n` (the call panics on an empty range).
#[verifier::external_body]
fn random_below(n: usize) -> (r: usize)
    requires
        n > 0,
    ensures
        r < n,
{
    rand::Rng::gen_range(&mut rand::thread_rng(), 0..n)
}

impl TicTacToe {
    /// Where it is the computer's turn, plays the cell that its engine picks,
    /// `roll` standing for the random draws, and returns that cell.
    pub fn make_ai_move(&mut self, roll: usize) -> (r: Option<usize>)
        requires
            old(self).wf(),
        ensures
            final(self).wf(),
            old(self)@.computer_to_move() ==> {
                let c = engine_choice(
                    old(self)@.cells,
                    Player::AI,
                    Player::Human,
                    old(self)@.level,
                    roll as int,
                );
                &&& r == Some(c as usize)
                &&& 0 <= c < CELLS
                &&& old(self)@.cells[c] == CellState::Empty
                &&& old(self)@.next(c) == Ok::<GameView, MoveError>(final(self)@)
            },
            !old(self)@.computer_to_move() ==> r is None && *final(self) == *old(self),
            final(self)@ == old(self)@.after_computer(roll as int),
    {
        if self.outcome == Outcome::Playing && self.mode == Mode::OnePlayer && self.player
            == Player::AI {
            proof {
                lemma_indices_with(self@.cells, CellState::Empty, CELLS as int);
            }
            let index = choose_move(&self.board, Player::AI, Player::Human, self.level, roll);
            let applied = self.apply_move(index);
            assert(applied is Ok);
            Some(index)
        } else {
            None
        }
    }

    /// A move intent: the current player marks cell `index`, and where the
    /// computer is then to move it replies at once, `roll` standing for its
    /// random draws. On a failure nothing changes.
    pub fn handle_move(&mut self, index: usize, roll: usize) -> (r: Result<(), MoveError>)
        requires
            old(self).wf(),
        ensures
            final(self).wf(),
            match old(self)@.next(index as int) {
                Ok(v) => r is Ok && final(self)@ == v.after_computer(roll as int),
                Err(e) => r == Err::<(), MoveError>(e) && *final(self) == *old(self),
            },
    {
        match self.apply_move(index) {
            Err(e) => Err(e),
            Ok(()) => {
                self.make_ai_move(roll);
                Ok(())
            },
        }
    }

    /// A move intent, with the computer's random draws made here.
    pub fn button_handler(&mut self, index: usize) -> (r: Result<(), MoveError>)
        requires
            old(self).wf(),
        ensures
            final(self).wf(),
            match old(self)@.next(index as int) {
                Ok(v) => r is Ok && exists|roll: int|
                    0 <= roll < ROLL_RANGE && final(self)@ == v.after_computer(roll),
                Err(e) => r == Err::<(), MoveError>(e) && *final(self) == *old(self),
            },
    {
        let roll = random_below(ROLL_RANGE);
        self.handle_move(index, roll)
    }

    /// Starts a fresh game in the same mode and at the same level.
    pub fn restart(&mut self)
        ensures
            final(self)@ == GameView::fresh(old(self)@.mode, old(self)@.level),
            final(self).wf(),
    {
        *self = TicTacToe::with_config(self.mode, self.level);
    }

    /// Starts a fresh game in `mode`, at the same level.
    pub fn set_mode(&mut self, mode: Mode)
        ensures
            final(self)@ == GameView::fresh(mode, old(self)@.level),
            final(self).wf(),
    {
        *self = TicTacToe::with_config(mode, self.level);
    }

    /// Starts a fresh game at `level`, in the same mode.
    pub fn set_level(&mut self, level: Level)
        ensures
            final(self)@ == GameView::fresh(old(self)@.mode, level),
            final(self).wf(),
    {
        *self = TicTacToe::with_config(self.mode, level);
    }
}

/// The status line of a session.
pub open spec fn status_text(v: GameView) -> Seq<char> {
    match v.outcome {
        Outcome::Playing => match v.player {
            Player::X => "X turn."@,
            Player::O => "O turn."@,
            Player::Human => "Human turn."@,
            Player::AI => "AI turn."@,
        },
        Outcome::Won(p) => match p {
            Player::X => "X is the winner!"@,
            Player::O => "O is the winner!"@,
            Player::Human => "Human is the winner!"@,
            Player::AI => "AI is the winner!"@,
        },
        Outcome::Draw => "Players, we have a draw."@,
    }
}

impl TicTacToe {
    /// The status line: whose turn it is, who won, or that it is a draw.
    pub fn message(&self) -> (r: &'static str)
        ensures
            r@ == status_text(self@),
    {
        match self.outcome {
            Outcome::Playing => match self.player {
                Player::X => "X turn.",
                Player::O => "O turn.",
                Player::Human => "Human turn.",
                Player::AI => "AI turn.",
            },
            Outcome::Won(p) => match p {
                Player::X => "X is the winner!",
                Player::O => "O is the winner!",
                Player::Human => "Human is the winner!",
                Player::AI => "AI is the winner!",
            },
            Outcome::Draw => "Players, we have a draw.",
        }
    }

    /// The board.
    pub fn board(&self) -> (r: Board)
        ensures
            r@ == self@.cells,
    {
        self.board
    }

    /// What cell `index` holds.
    pub fn cell(&self, index: usize) -> (r: CellState)
        requires
            index < CELLS,
        ensures
            r == self@.cells[index as int],
    {
        self.board.cell(index)
    }

    /// The player whose mark comes next, or who won.
    pub fn current_player(&self) -> (r: Player)
        ensures
            r == self@.player,
    {
        self.player
    }

    /// The number of marks on the board.
    pub fn moves_made(&self) -> (r: usize)
        ensures
            r == self@.moves_made,
    {
        self.moves_made
    }

    /// How the game stands.
    pub fn outcome(&self) -> (r: Outcome)
        ensures
            r == self@.outcome,
    {
        self.outcome
    }

    /// Whether one side is the computer.
    pub fn mode(&self) -> (r: Mode)
        ensures
            r == self@.mode,
    {
        self.mode
    }

    /// The computer's strength.
    pub fn level(&self) -> (r: Level)
        ensures
            r == self@.level,
    {
        self.level
    }
}

/// A session whose nine cells are all taken while no player holds a line has
/// ended in a draw: since marks are never removed, no line was ever formed on
/// the way.
pub proof fn lemma_full_board_without_line_is_draw(g: TicTacToe)
    requires
        g.wf(),
        g@.moves_made == CELLS,
        forall|p: Player| !wins(g@.cells, p),
    ensures
        g@.outcome == Outcome::Draw,
{
}

/// A board with no mark has every cell free.
proof fn lemma_all_free(cells: Seq<CellState>, n: int)
    requires
        0 <= n <= cells.len(),
        n <= CELLS,
        forall|i: int| 0 <= i < cells.len() ==> cells[i] == CellState::Empty,
    ensures
        indices_with(cells, CellState::Empty, n).len() == n,
    decreases n,
{
    if n > 0 {
        lemma_all_free(cells, n - 1);
    }
}

} // verus!
