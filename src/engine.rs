use vstd::prelude::*;

use crate::board::{
    filled, free_cells, lemma_indices_with, lemma_occupy_shrinks, line_at, win_line, wins, Board,
    CellState, Player, CELLS, LINES,
};

verus! {

/// A cell chosen by the search together with the score it leads to.
#[derive(Clone, Copy, Debug, PartialEq, Eq, Structural)]
pub struct Move {
    pub score: i32,
    pub index: usize,
}

/// The score of a position that the engine has won.
pub const WIN_SCORE: i32 = 10;

/// A score below every reachable one, where the engine maximises, or above
/// every reachable one, where its rival minimises.
pub open spec fn no_candidate(engine_to_move: bool) -> int {
    if engine_to_move {
        -11
    } else {
        11
    }
}

/// The position is decided: a line for either side, or no free cell.
pub open spec fn decided(cells: Seq<CellState>, engine: Player, rival: Player) -> bool {
    wins(cells, rival) || wins(cells, engine) || free_cells(cells).len() == 0
}

/// The player whose turn it is in the search.
pub open spec fn mover(engine: Player, rival: Player, engine_to_move: bool) -> Player {
    if engine_to_move {
        engine
    } else {
        rival
    }
}

/// The game-tree value of a position: +10 when the engine wins, -10 when its
/// rival wins, 0 for a draw, under best play from both sides.
pub open spec fn minimax_score(
    cells: Seq<CellState>,
    engine: Player,
    rival: Player,
    engine_to_move: bool,
) -> int
    decreases free_cells(cells).len(), CELLS + 1,
{
    if wins(cells, rival) {
        -10
    } else if wins(cells, engine) {
        10
    } else if free_cells(cells).len() == 0 {
        0
    } else {
        best_upto(cells, engine, rival, engine_to_move, CELLS as int).0
    }
}

/// The best candidate among the free cells below `k`, as (score, index): the
/// highest score when the engine moves, the lowest when its rival does, the
/// lowest index among equal scores.
pub open spec fn best_upto(
    cells: Seq<CellState>,
    engine: Player,
    rival: Player,
    engine_to_move: bool,
    k: int,
) -> (int, int)
    decreases free_cells(cells).len(), k,
{
    if k <= 0 || k > CELLS || cells.len() != CELLS {
        (no_candidate(engine_to_move), 0)
    } else {
        let prev = best_upto(cells, engine, rival, engine_to_move, k - 1);
        if cells[k - 1] == CellState::Empty {
            let p = mover(engine, rival, engine_to_move);
            proof {
                lemma_occupy_shrinks(cells, k - 1, p, CELLS as int);
            }
            let s = minimax_score(
                cells.update(k - 1, CellState::Occupied(p)),
                engine,
                rival,
                !engine_to_move,
            );
            if (engine_to_move && s > prev.0) || (!engine_to_move && s < prev.0) {
                (s, k - 1)
            } else {
                prev
            }
        } else {
            prev
        }
    }
}

/// Exhaustive game-tree search from `board`: the score of the position and,
/// unless it is decided, the first free cell that achieves it.
pub fn minimax(board: &Board, engine: Player, rival: Player, engine_to_move: bool) -> (r: Move)
    ensures
        r.score == minimax_score(board@, engine, rival, engine_to_move),
        -WIN_SCORE <= r.score <= WIN_SCORE,
        !decided(board@, engine, rival) ==> {
            &&& r.index == best_upto(board@, engine, rival, engine_to_move, CELLS as int).1
            &&& r.index < CELLS
            &&& board@[r.index as int] == CellState::Empty
        },
    decreases free_cells(board@).len(),
{
    if board.check_win(rival) {
        return Move { score: -WIN_SCORE, index: 0 };
    }
    if board.check_win(engine) {
        return Move { score: WIN_SCORE, index: 0 };
    }
    if board.is_full() {
        return Move { score: 0, index: 0 };
    }
    let p = if engine_to_move {
        engine
    } else {
        rival
    };
    let mut best = Move { score: if engine_to_move {
        -WIN_SCORE - 1
    } else {
        WIN_SCORE + 1
    }, index: 0 };
    let mut k: usize = 0;
    while k < CELLS
        invariant
            k <= CELLS,
            board@.len() == CELLS,
            p == mover(engine, rival, engine_to_move),
            (best.score as int, best.index as int) == best_upto(
                board@,
                engine,
                rival,
                engine_to_move,
                k as int,
            ),
            best.score == no_candidate(engine_to_move) || {
                &&& -WIN_SCORE <= best.score <= WIN_SCORE
                &&& best.index < k
                &&& board@[best.index as int] == CellState::Empty
            },
            (exists|j: int| 0 <= j < k && board@[j] == CellState::Empty) ==> best.score
                != no_candidate(engine_to_move),
        decreases CELLS - k,
    {
        if board.cells[k] == CellState::Empty {
            let mut child = *board;
            child.make_move(k, p);
            proof {
                lemma_occupy_shrinks(board@, k as int, p, CELLS as int);
            }
            let reply = minimax(&child, engine, rival, !engine_to_move);
            if (engine_to_move && reply.score > best.score) || (!engine_to_move && reply.score
                < best.score) {
                best = Move { score: reply.score, index: k };
            }
        }
        k = k + 1;
    }
    best
}

/// The cell that would complete `line` for `opp`: the one empty cell of a
/// line whose two other cells hold `opp`.
pub open spec fn line_block(cells: Seq<CellState>, line: (int, int, int), opp: Player) -> Option<
    int,
> {
    let o = CellState::Occupied(opp);
    let e = CellState::Empty;
    if cells[line.0] == o && cells[line.1] == o && cells[line.2] == e {
        Some(line.2)
    } else if cells[line.0] == o && cells[line.1] == e && cells[line.2] == o {
        Some(line.1)
    } else if cells[line.0] == e && cells[line.1] == o && cells[line.2] == o {
        Some(line.0)
    } else {
        None
    }
}

/// The blocking cell of the first winning line, from the `k`-th on, that
/// `opp` could complete with one more mark.
pub open spec fn block_from(cells: Seq<CellState>, opp: Player, k: int) -> Option<int>
    decreases LINES - k,
{
    if k < 0 || k >= LINES {
        None
    } else {
        match line_block(cells, win_line(k), opp) {
            Some(c) => Some(c),
            None => block_from(cells, opp, k + 1),
        }
    }
}

/// The cell that stops `opp` from completing a line on its next move, taken
/// from the first such line in the fixed line order.
pub open spec fn first_block(cells: Seq<CellState>, opp: Player) -> Option<int> {
    block_from(cells, opp, 0)
}

/// The blocking cell of `line`, computed.
fn block_in_line(board: &Board, line: (usize, usize, usize), opp: Player) -> (r: Option<usize>)
    requires
        line.0 < CELLS && line.1 < CELLS && line.2 < CELLS,
    ensures
        r matches Some(c) ==> line_block(board@, (line.0 as int, line.1 as int, line.2 as int), opp)
            == Some(c as int),
        r is None ==> line_block(board@, (line.0 as int, line.1 as int, line.2 as int), opp) is None,
{
    let o = CellState::Occupied(opp);
    let (a, b, c) = line;
    if board.cells[a] == o && board.cells[b] == o && board.cells[c] == CellState::Empty {
        Some(c)
    } else if board.cells[a] == o && board.cells[b] == CellState::Empty && board.cells[c] == o {
        Some(b)
    } else if board.cells[a] == CellState::Empty && board.cells[b] == o && board.cells[c] == o {
        Some(a)
    } else {
        None
    }
}

/// The empty cell of the first winning line in which `opp` holds the two
/// other cells, if there is one.
pub fn play_block(board: &Board, opp: Player) -> (r: Option<usize>)
    ensures
        r matches Some(c) ==> first_block(board@, opp) == Some(c as int),
        r is None ==> first_block(board@, opp) is None,
        r matches Some(c) ==> c < CELLS && board@[c as int] == CellState::Empty,
{
    let mut k: usize = 0;
    while k < LINES
        invariant
            k <= LINES,
            block_from(board@, opp, 0) == block_from(board@, opp, k as int),
        decreases LINES - k,
    {
        let line = line_at(k);
        let found = block_in_line(board, line, opp);
        if let Some(c) = found {
            return Some(c);
        }
        k = k + 1;
    }
    None
}

/// The strength of the computer opponent.
#[derive(Clone, Copy, Debug, PartialEq, Eq, Structural)]
pub enum Level {
    /// A uniformly random free cell.
    Easy,
    /// A fixed rule cascade.
    Medium,
    /// Exhaustive game-tree search.
    Hard,
}

/// The free cell that `roll` selects: position `roll` modulo the number of
/// free cells, in ascending order.
pub open spec fn random_free(cells: Seq<CellState>, roll: int) -> int {
    free_cells(cells)[roll % free_cells(cells).len() as int] as int
}

/// The corner that `roll` selects among 0, 2, 6 and 8.
pub open spec fn corner(roll: int) -> int {
    let i = roll % 4;
    if i == 0 {
        0
    } else if i == 1 {
        2
    } else if i == 2 {
        6
    } else {
        8
    }
}

/// The free corner diagonally opposite a corner that `opp` holds, by the
/// pairing 2 to 6, 6 to 2, 0 to 8 and 8 to 0, first match first.
pub open spec fn opposite_corner(cells: Seq<CellState>, opp: Player) -> Option<int> {
    let o = CellState::Occupied(opp);
    let e = CellState::Empty;
    if cells[2] == o && cells[6] == e {
        Some(6)
    } else if cells[6] == o && cells[2] == e {
        Some(2)
    } else if cells[0] == o && cells[8] == e {
        Some(8)
    } else if cells[8] == o && cells[0] == e {
        Some(0)
    } else {
        None
    }
}

/// The first free edge midpoint among 1, 7, 3 and 5.
pub open spec fn first_free_edge(cells: Seq<CellState>) -> Option<int> {
    let e = CellState::Empty;
    if cells[1] == e {
        Some(1)
    } else if cells[7] == e {
        Some(7)
    } else if cells[3] == e {
        Some(3)
    } else if cells[5] == e {
        Some(5)
    } else {
        None
    }
}

/// The cell that the rule cascade picks against `opp`, `roll` standing for
/// the random draws: block a line, answer an opening in the centre with a
/// corner and then the opposite corner, take the free centre, take an edge,
/// and otherwise a random free cell.
pub open spec fn medium_choice(cells: Seq<CellState>, opp: Player, roll: int) -> int {
    let o = CellState::Occupied(opp);
    let n = filled(cells);
    if first_block(cells, opp) is Some {
        first_block(cells, opp)->0
    } else if n == 1 && cells[4] == o && cells[corner(roll)] == CellState::Empty {
        corner(roll)
    } else if n == 3 && cells[4] == o && opposite_corner(cells, opp) is Some {
        opposite_corner(cells, opp)->0
    } else if n == 1 && cells[4] == CellState::Empty {
        4
    } else if n == 3 && cells[4] != o && first_free_edge(cells) is Some {
        first_free_edge(cells)->0
    } else {
        random_free(cells, roll)
    }
}

/// The cell that exhaustive search picks for `engine`.
pub open spec fn hard_choice(cells: Seq<CellState>, engine: Player, rival: Player) -> int {
    best_upto(cells, engine, rival, true, CELLS as int).1
}

/// The cell that the strategy of `level` picks for `acting`.
pub open spec fn engine_choice(
    cells: Seq<CellState>,
    acting: Player,
    opposing: Player,
    level: Level,
    roll: int,
) -> int {
    match level {
        Level::Easy => random_free(cells, roll),
        Level::Medium => medium_choice(cells, opposing, roll),
        Level::Hard => hard_choice(cells, acting, opposing),
    }
}

/// Position `roll` modulo the number of free cells, among the free cells.
pub fn free_spot(board: &Board, roll: usize) -> (r: usize)
    requires
        free_cells(board@).len() > 0,
    ensures
        r as int == random_free(board@, roll as int),
        free_cells(board@).contains(r),
        r < CELLS,
        board@[r as int] == CellState::Empty,
{
    let spots = board.available_moves();
    proof {
        lemma_indices_with(board@, CellState::Empty, CELLS as int);
    }
    spots[roll % spots.len()]
}

/// The rule cascade of the medium strategy against `opp`.
pub fn closest_spot(board: &Board, opp: Player, roll: usize) -> (r: usize)
    requires
        free_cells(board@).len() > 0,
    ensures
        r as int == medium_choice(board@, opp, roll as int),
        r < CELLS,
        board@[r as int] == CellState::Empty,
{
    if let Some(c) = play_block(board, opp) {
        return c;
    }
    let spots = board.available_moves();
    proof {
        lemma_indices_with(board@, CellState::Empty, CELLS as int);
    }
    let n = CELLS - spots.len();
    let o = CellState::Occupied(opp);
    let e = CellState::Empty;
    let center = board.cells[4];
    if n == 1 && center == o {
        let i = roll % 4;
        let c: usize = if i == 0 {
            0
        } else if i == 1 {
            2
        } else if i == 2 {
            6
        } else {
            8
        };
        if board.cells[c] == e {
            return c;
        }
    }
    if n == 3 && center == o {
        if board.cells[2] == o && board.cells[6] == e {
            return 6;
        } else if board.cells[6] == o && board.cells[2] == e {
            return 2;
        } else if board.cells[0] == o && board.cells[8] == e {
            return 8;
        } else if board.cells[8] == o && board.cells[0] == e {
            return 0;
        }
    }
    if n == 1 && center == e {
        return 4;
    }
    if n == 3 && center != o {
        if board.cells[1] == e {
            return 1;
        } else if board.cells[7] == e {
            return 7;
        } else if board.cells[3] == e {
            return 3;
        } else if board.cells[5] == e {
            return 5;
        }
    }
    spots[roll % spots.len()]
}

/// The cell that exhaustive search picks for `engine` against `rival`.
pub fn best_spot(board: &Board, engine: Player, rival: Player) -> (r: usize)
    requires
        !decided(board@, engine, rival),
    ensures
        r as int == hard_choice(board@, engine, rival),
        r < CELLS,
        board@[r as int] == CellState::Empty,
{
    minimax(board, engine, rival, true).index
}

/// The cell that the opponent of strength `level` plays for `acting` against
/// `opposing`; `roll` stands for the random draws of the easy and medium
/// strategies.
pub fn choose_move(board: &Board, acting: Player, opposing: Player, level: Level, roll: usize) -> (r:
    usize)
    requires
        !decided(board@, acting, opposing),
    ensures
        r as int == engine_choice(board@, acting, opposing, level, roll as int),
        r < CELLS,
        board@[r as int] == CellState::Empty,
{
    match level {
        Level::Easy => free_spot(board, roll),
        Level::Medium => closest_spot(board, opposing, roll),
        Level::Hard => best_spot(board, acting, opposing),
    }
}

/// Facts about the running best candidate: it is a free cell whose child
/// scores as recorded, no free cell below `k` beats it, and scores stay
/// within the win score.
pub proof fn lemma_best_upto(
    cells: Seq<CellState>,
    engine: Player,
    rival: Player,
    engine_to_move: bool,
    k: int,
)
    requires
        cells.len() == CELLS,
        0 <= k <= CELLS,
    ensures
        ({
            let res = best_upto(cells, engine, rival, engine_to_move, k);
            &&& (exists|j: int| 0 <= j < k && cells[j] == CellState::Empty) ==> {
                &&& 0 <= res.1 < k
                &&& cells[res.1] == CellState::Empty
                &&& -WIN_SCORE <= res.0 <= WIN_SCORE
                &&& res.0 == minimax_score(
                    cells.update(res.1, CellState::Occupied(mover(engine, rival, engine_to_move))),
                    engine,
                    rival,
                    !engine_to_move,
                )
            }
            &&& !(exists|j: int| 0 <= j < k && cells[j] == CellState::Empty) ==> res.0
                == no_candidate(engine_to_move)
            &&& res.0 == no_candidate(engine_to_move) || -WIN_SCORE <= res.0 <= WIN_SCORE
            &&& forall|j: int|
                0 <= j < k && cells[j] == CellState::Empty ==> {
                    let s = minimax_score(
                        #[trigger] cells.update(
                            j,
                            CellState::Occupied(mover(engine, rival, engine_to_move)),
                        ),
                        engine,
                        rival,
                        !engine_to_move,
                    );
                    &&& engine_to_move ==> s <= res.0
                    &&& !engine_to_move ==> res.0 <= s
                }
        }),
    decreases free_cells(cells).len(), k,
{
    if k > 0 {
        lemma_best_upto(cells, engine, rival, engine_to_move, k - 1);
        if cells[k - 1] == CellState::Empty {
            let p = mover(engine, rival, engine_to_move);
            lemma_occupy_shrinks(cells, k - 1, p, CELLS as int);
            lemma_score_range(cells.update(k - 1, CellState::Occupied(p)), engine, rival, !engine_to_move);
        }
    }
}

/// Every score of the search lies between minus and plus the win score.
pub proof fn lemma_score_range(cells: Seq<CellState>, engine: Player, rival: Player, engine_to_move: bool)
    requires
        cells.len() == CELLS,
    ensures
        -WIN_SCORE <= minimax_score(cells, engine, rival, engine_to_move) <= WIN_SCORE,
    decreases free_cells(cells).len(), CELLS + 1,
{
    if !decided(cells, engine, rival) {
        lemma_best_upto(cells, engine, rival, engine_to_move, CELLS as int);
        lemma_indices_with(cells, CellState::Empty, CELLS as int);
        let j = free_cells(cells)[0] as int;
        assert(0 <= j < CELLS && cells[j] == CellState::Empty);
        assert(exists|j: int| 0 <= j < CELLS && cells[j] == CellState::Empty);
    }
}

/// Exhaustive search never loses a position that it does not already count
/// as lost: where the engine is to move in an open position of non-negative
/// value, the cell it picks keeps that value and leaves the rival without a
/// line, and no reply of the rival completes a line for it or drops the value
/// below zero. A position that the rival has won is worth minus the win
/// score, so play from such a position never ends in the rival's win.
pub proof fn lemma_hard_never_loses(cells: Seq<CellState>, engine: Player, rival: Player)
    requires
        cells.len() == CELLS,
        engine != rival,
        !decided(cells, engine, rival),
        minimax_score(cells, engine, rival, true) >= 0,
    ensures
        ({
            let i = hard_choice(cells, engine, rival);
            let after = cells.update(i, CellState::Occupied(engine));
            &&& 0 <= i < CELLS
            &&& cells[i] == CellState::Empty
            &&& minimax_score(after, engine, rival, false) == minimax_score(cells, engine, rival, true)
            &&& !wins(after, rival)
            &&& forall|j: int|
                0 <= j < CELLS && after[j] == CellState::Empty && !decided(after, engine, rival) ==> {
                    let reply = #[trigger] after.update(j, CellState::Occupied(rival));
                    &&& !wins(reply, rival)
                    &&& minimax_score(reply, engine, rival, true) >= 0
                }
        }),
{
    lemma_best_upto(cells, engine, rival, true, CELLS as int);
    lemma_indices_with(cells, CellState::Empty, CELLS as int);
    let j0 = free_cells(cells)[0] as int;
    assert(0 <= j0 < CELLS && cells[j0] == CellState::Empty);
    assert(exists|j: int| 0 <= j < CELLS && cells[j] == CellState::Empty);
    let i = hard_choice(cells, engine, rival);
    let after = cells.update(i, CellState::Occupied(engine));
    if !decided(after, engine, rival) {
        lemma_best_upto(after, engine, rival, false, CELLS as int);
        assert forall|j: int|
            0 <= j < CELLS && after[j] == CellState::Empty implies {
                let reply = #[trigger] after.update(j, CellState::Occupied(rival));
                &&& !wins(reply, rival)
                &&& minimax_score(reply, engine, rival, true) >= 0
            } by {
            let reply = after.update(j, CellState::Occupied(rival));
            assert(minimax_score(reply, engine, rival, true) >= minimax_score(after, engine, rival, false));
        }
    }
}

/// The first line from the `j`-th on that `opp` could complete is found by
/// the scan from `j`.
proof fn lemma_block_from_finds(cells: Seq<CellState>, opp: Player, j: int, k: int)
    requires
        0 <= j <= k < LINES,
        line_block(cells, win_line(k), opp) is Some,
    ensures
        block_from(cells, opp, j) is Some,
        exists|l: int|
            j <= l <= k && line_block(cells, win_line(l), opp) == #[trigger] block_from(cells, opp, j),
    decreases k - j,
{
    if line_block(cells, win_line(j), opp) is None {
        lemma_block_from_finds(cells, opp, j + 1, k);
        let l = choose|l: int|
            j + 1 <= l <= k && line_block(cells, win_line(l), opp) == #[trigger] block_from(
                cells,
                opp,
                j + 1,
            );
        assert(line_block(cells, win_line(l), opp) == block_from(cells, opp, j));
    } else {
        assert(line_block(cells, win_line(j), opp) == block_from(cells, opp, j));
    }
}

/// The medium strategy always blocks: where `opp` holds two cells of a line
/// whose third cell is free, it plays the free cell of such a line, the first
/// one in the fixed line order, whatever the random draw.
pub proof fn lemma_medium_blocks(cells: Seq<CellState>, opp: Player, roll: int, k: int)
    requires
        0 <= k < LINES,
        line_block(cells, win_line(k), opp) is Some,
    ensures
        first_block(cells, opp) is Some,
        medium_choice(cells, opp, roll) == first_block(cells, opp)->0,
        exists|l: int|
            0 <= l <= k && line_block(cells, win_line(l), opp) == Some(
                #[trigger] medium_choice(cells, opp, roll),
            ),
{
    lemma_block_from_finds(cells, opp, 0, k);
}

} // verus!
