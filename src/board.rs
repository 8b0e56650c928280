use vstd::prelude::*;

verus! {

/// The identity of a mover: `X` and `O` in a two-player game, `Human` and
/// `AI` when one side is played by the computer.
#[derive(Clone, Copy, Debug, PartialEq, Eq, Structural)]
pub enum Player {
    X,
    O,
    Human,
    AI,
}

impl Player {
    pub open spec fn opponent_spec(self) -> Player {
        match self {
            Player::X => Player::O,
            Player::O => Player::X,
            Player::Human => Player::AI,
            Player::AI => Player::Human,
        }
    }

    /// The identity that moves after this one.
    pub fn opponent(self) -> (r: Player)
        ensures
            r == self.opponent_spec(),
    {
        match self {
            Player::X => Player::O,
            Player::O => Player::X,
            Player::Human => Player::AI,
            Player::AI => Player::Human,
        }
    }
}

/// What one cell of the board holds.
#[derive(Clone, Copy, Debug, PartialEq, Eq, Structural)]
pub enum CellState {
    Empty,
    Occupied(Player),
}

/// The number of cells on the board.
pub const CELLS: usize = 9;

/// The number of winning lines.
pub const LINES: usize = 8;

/// The `k`-th winning line: three rows, three columns, then the two diagonals.
pub open spec fn win_line(k: int) -> (int, int, int) {
    if k == 0 {
        (0, 1, 2)
    } else if k == 1 {
        (3, 4, 5)
    } else if k == 2 {
        (6, 7, 8)
    } else if k == 3 {
        (0, 3, 6)
    } else if k == 4 {
        (1, 4, 7)
    } else if k == 5 {
        (2, 5, 8)
    } else if k == 6 {
        (0, 4, 8)
    } else {
        (2, 4, 6)
    }
}

/// All three cells of `line` hold `player`.
pub open spec fn line_owned(cells: Seq<CellState>, line: (int, int, int), player: Player) -> bool {
    &&& cells[line.0] == CellState::Occupied(player)
    &&& cells[line.1] == CellState::Occupied(player)
    &&& cells[line.2] == CellState::Occupied(player)
}

/// Some winning line is uniformly occupied by `player`.
pub open spec fn wins(cells: Seq<CellState>, player: Player) -> bool {
    exists|k: int| 0 <= k < LINES && #[trigger] line_owned(cells, win_line(k), player)
}

/// The indices below `n` whose cell equals `state`, in ascending order.
pub open spec fn indices_with(cells: Seq<CellState>, state: CellState, n: int) -> Seq<usize>
    decreases n,
{
    if n <= 0 {
        Seq::empty()
    } else if cells[n - 1] == state {
        indices_with(cells, state, n - 1).push((n - 1) as usize)
    } else {
        indices_with(cells, state, n - 1)
    }
}

/// The free cells of a board, in ascending order.
pub open spec fn free_cells(cells: Seq<CellState>) -> Seq<usize> {
    indices_with(cells, CellState::Empty, CELLS as int)
}

/// The number of occupied cells of a board.
pub open spec fn filled(cells: Seq<CellState>) -> int {
    CELLS - free_cells(cells).len()
}

/// `indices_with` lists exactly the matching cells, ascending and below `n`.
pub proof fn lemma_indices_with(cells: Seq<CellState>, state: CellState, n: int)
    requires
        0 <= n <= cells.len(),
        n <= CELLS,
    ensures
        indices_with(cells, state, n).len() <= n,
        forall|j: int|
            0 <= j < indices_with(cells, state, n).len() ==> {
                let i = #[trigger] indices_with(cells, state, n)[j];
                &&& i < n
                &&& cells[i as int] == state
            },
        forall|j: int, l: int|
            0 <= j < l < indices_with(cells, state, n).len() ==> indices_with(cells, state, n)[j]
                < indices_with(cells, state, n)[l],
        forall|i: usize|
            i < n && cells[i as int] == state ==> #[trigger] indices_with(
                cells,
                state,
                n,
            ).contains(i),
    decreases n,
{
    if n > 0 {
        lemma_indices_with(cells, state, n - 1);
        let prev = indices_with(cells, state, n - 1);
        let cur = indices_with(cells, state, n);
        if cells[n - 1] == state {
            assert(cur == prev.push((n - 1) as usize));
            assert forall|j: int, l: int| 0 <= j < l < cur.len() implies cur[j] < cur[l] by {
                if l < prev.len() {
                    assert(cur[j] == prev[j] && cur[l] == prev[l]);
                } else {
                    assert(cur[j] == prev[j]);
                }
            }
            assert forall|i: usize| i < n && cells[i as int] == state implies #[trigger] cur.contains(
                i,
            ) by {
                if i < n - 1 {
                    assert(prev.contains(i));
                    let j = choose|j: int| 0 <= j < prev.len() && prev[j] == i;
                    assert(cur[j] == i);
                } else {
                    assert(cur[prev.len() as int] == i);
                }
            }
        }
    }
}

/// Occupying a free cell removes exactly one index from the free cells.
pub proof fn lemma_occupy_shrinks(cells: Seq<CellState>, i: int, p: Player, n: int)
    requires
        0 <= n <= cells.len(),
        0 <= i < cells.len(),
        cells[i] == CellState::Empty,
    ensures
        indices_with(cells.update(i, CellState::Occupied(p)), CellState::Empty, n).len() + (if i
            < n {
            1int
        } else {
            0int
        }) == indices_with(cells, CellState::Empty, n).len(),
    decreases n,
{
    if n > 0 {
        lemma_occupy_shrinks(cells, i, p, n - 1);
    }
}

/// A 3x3 grid of cells, indexed row by row from 0 to 8.
#[derive(Clone, Copy, Debug)]
pub struct Board {
    pub cells: [CellState; 9],
}

impl View for Board {
    type V = Seq<CellState>;

    open spec fn view(&self) -> Seq<CellState> {
        self.cells@
    }
}

/// The failures of a move.
#[derive(Clone, Copy, Debug, PartialEq, Eq, Structural)]
pub enum MoveError {
    /// The index does not name a cell.
    IndexOutOfRange,
    /// The cell already holds a mark.
    CellOccupied,
    /// The game has ended.
    GameAlreadyOver,
}

/// The cells of the `k`-th winning line.
pub fn line_at(k: usize) -> (r: (usize, usize, usize))
    requires
        k < LINES,
    ensures
        (r.0 as int, r.1 as int, r.2 as int) == win_line(k as int),
        r.0 < CELLS && r.1 < CELLS && r.2 < CELLS,
{
    if k == 0 {
        (0, 1, 2)
    } else if k == 1 {
        (3, 4, 5)
    } else if k == 2 {
        (6, 7, 8)
    } else if k == 3 {
        (0, 3, 6)
    } else if k == 4 {
        (1, 4, 7)
    } else if k == 5 {
        (2, 5, 8)
    } else if k == 6 {
        (0, 4, 8)
    } else {
        (2, 4, 6)
    }
}

impl Board {
    /// A board with every cell empty.
    pub fn new() -> (r: Board)
        ensures
            r@ == Seq::new(9, |i: int| CellState::Empty),
    {
        let r = Board { cells: [CellState::Empty; 9] };
        assert(r@ =~= Seq::new(9, |i: int| CellState::Empty));
        r
    }

    /// What cell `index` holds.
    pub fn cell(&self, index: usize) -> (r: CellState)
        requires
            index < CELLS,
        ensures
            r == self@[index as int],
    {
        self.cells[index]
    }

    /// Puts `player`'s mark on cell `position`, whatever it held.
    pub fn make_move(&mut self, position: usize, player: Player)
        requires
            position < CELLS,
        ensures
            final(self)@ == old(self)@.update(position as int, CellState::Occupied(player)),
    {
        self.cells[position] = CellState::Occupied(player);
    }

    /// Puts `player`'s mark on cell `index` if it exists and is empty.
    pub fn occupy(&mut self, index: usize, player: Player) -> (r: Result<(), MoveError>)
        ensures
            index >= CELLS ==> r == Err::<(), MoveError>(MoveError::IndexOutOfRange),
            index < CELLS && old(self)@[index as int] != CellState::Empty ==> r == Err::<
                (),
                MoveError,
            >(MoveError::CellOccupied),
            index < CELLS && old(self)@[index as int] == CellState::Empty ==> r is Ok,
            r is Ok ==> final(self)@ == old(self)@.update(
                index as int,
                CellState::Occupied(player),
            ),
            r is Err ==> *final(self) == *old(self),
    {
        if index >= CELLS {
            Err(MoveError::IndexOutOfRange)
        } else if self.cells[index] != CellState::Empty {
            Err(MoveError::CellOccupied)
        } else {
            self.make_move(index, player);
            Ok(())
        }
    }

    /// The indices of the cells that hold `state`, in ascending order.
    pub fn indices_of(&self, state: CellState) -> (r: Vec<usize>)
        ensures
            r@ == indices_with(self@, state, CELLS as int),
    {
        let mut r: Vec<usize> = Vec::new();
        let mut i: usize = 0;
        while i < CELLS
            invariant
                i <= CELLS,
                r@ == indices_with(self@, state, i as int),
            decreases CELLS - i,
        {
            if self.cells[i] == state {
                r.push(i);
            }
            i = i + 1;
        }
        r
    }

    /// The free cells, in ascending order.
    pub fn available_moves(&self) -> (r: Vec<usize>)
        ensures
            r@ == free_cells(self@),
    {
        self.indices_of(CellState::Empty)
    }

    /// The cells that hold `player`'s mark, in ascending order.
    pub fn moves_by(&self, player: Player) -> (r: Vec<usize>)
        ensures
            r@ == indices_with(self@, CellState::Occupied(player), CELLS as int),
    {
        self.indices_of(CellState::Occupied(player))
    }

    /// The cells that the computer holds, in ascending order.
    pub fn ai_played_moves(&self) -> (r: Vec<usize>)
        ensures
            r@ == indices_with(self@, CellState::Occupied(Player::AI), CELLS as int),
    {
        self.moves_by(Player::AI)
    }

    /// The cells that the human player holds, in ascending order.
    pub fn hu_played_moves(&self) -> (r: Vec<usize>)
        ensures
            r@ == indices_with(self@, CellState::Occupied(Player::Human), CELLS as int),
    {
        self.moves_by(Player::Human)
    }

    /// Whether no cell is free.
    pub fn is_full(&self) -> (r: bool)
        ensures
            r == (free_cells(self@).len() == 0),
            r == (forall|i: int| 0 <= i < CELLS ==> self@[i] != CellState::Empty),
    {
        proof {
            lemma_indices_with(self@, CellState::Empty, CELLS as int);
        }
        let mut i: usize = 0;
        while i < CELLS
            invariant
                i <= CELLS,
                forall|j: int| 0 <= j < i ==> self@[j] != CellState::Empty,
            decreases CELLS - i,
        {
            if self.cells[i] == CellState::Empty {
                proof {
                    lemma_indices_with(self@, CellState::Empty, CELLS as int);
                }
                assert(free_cells(self@).contains(i));
                return false;
            }
            i = i + 1;
        }
        proof {
            if free_cells(self@).len() > 0 {
                assert(self@[free_cells(self@)[0] as int] == CellState::Empty);
            }
        }
        true
    }

    /// Whether `player` holds all three cells of some winning line.
    pub fn check_win(&self, player: Player) -> (r: bool)
        ensures
            r == wins(self@, player),
    {
        let mut k: usize = 0;
        while k < LINES
            invariant
                k <= LINES,
                forall|j: int| 0 <= j < k ==> !line_owned(self@, win_line(j), player),
            decreases LINES - k,
        {
            let (a, b, c) = line_at(k);
            let mark = CellState::Occupied(player);
            if self.cells[a] == mark && self.cells[b] == mark && self.cells[c] == mark {
                assert(line_owned(self@, win_line(k as int), player));
                return true;
            }
            k = k + 1;
        }
        false
    }
}

} // verus!
