//! The win/draw evaluator: a stateless pass over the current grid, with no
//! memory of move history. A line counts as a win only when all N of its
//! cells are `Occupied` by the identical player; `Empty` never contributes.

use vstd::prelude::*;

use crate::board::BoardState;
use crate::board::Cell;
use crate::board::Player;
use crate::board::grid_full;
use crate::board::grid_wf;

verus! {

/// How a concluded session ended.
#[derive(Clone, Copy, Debug, PartialEq, Eq, Structural)]
pub enum Outcome {
    Win(Player),
    Draw,
}

/// Row `r` is filled entirely by `p`.
pub open spec fn row_won(g: Seq<Seq<Cell>>, n: int, r: int, p: Player) -> bool {
    forall|c: int| 0 <= c < n ==> g[r][c] == Cell::Occupied(p)
}

/// Column `c` is filled entirely by `p`.
pub open spec fn col_won(g: Seq<Seq<Cell>>, n: int, c: int, p: Player) -> bool {
    forall|r: int| 0 <= r < n ==> g[r][c] == Cell::Occupied(p)
}

/// The main diagonal `(i, i)` is filled entirely by `p`.
pub open spec fn main_diag_won(g: Seq<Seq<Cell>>, n: int, p: Player) -> bool {
    forall|i: int| 0 <= i < n ==> g[i][i] == Cell::Occupied(p)
}

/// The anti-diagonal `(i, N - 1 - i)` is filled entirely by `p`.
pub open spec fn anti_diag_won(g: Seq<Seq<Cell>>, n: int, p: Player) -> bool {
    forall|i: int| 0 <= i < n ==> (#[trigger] g[i])[n - 1 - i] == Cell::Occupied(p)
}

/// `p` owns a complete row, column, or diagonal.
pub open spec fn wins(g: Seq<Seq<Cell>>, n: int, p: Player) -> bool {
    ||| exists|r: int| 0 <= r < n && row_won(g, n, r, p)
    ||| exists|c: int| 0 <= c < n && col_won(g, n, c, p)
    ||| main_diag_won(g, n, p)
    ||| anti_diag_won(g, n, p)
}

/// Some player owns a complete line.
pub open spec fn has_winner(g: Seq<Seq<Cell>>, n: int) -> bool {
    exists|p: Player| wins(g, n, p)
}

/// What the evaluator says of grid `g`: a win for a winning player when one
/// exists, `Draw` for a full board without a winner, and `None` (game
/// continues) otherwise.
pub open spec fn evaluation_of(g: Seq<Seq<Cell>>, n: int, r: Option<Outcome>) -> bool {
    &&& (r is None <==> !has_winner(g, n) && !grid_full(g, n))
    &&& (r == Some(Outcome::Draw) <==> !has_winner(g, n) && grid_full(g, n))
    &&& (forall|p: Player| r == Some(Outcome::Win(p)) ==> wins(g, n, p))
    &&& (has_winner(g, n) ==> (r matches Some(o) && o is Win))
}

/// Evaluator correctness, winning case: on a board where `p` owns a
/// complete line and every occupied cell belongs to `p` (in particular, on
/// one whose only occupied cells form that line), anything the evaluator's
/// contract allows is `Win(p)`.
pub proof fn lemma_evaluation_single_line_win(
    g: Seq<Seq<Cell>>,
    n: int,
    p: Player,
    r: Option<Outcome>,
)
    requires
        grid_wf(g, n),
        wins(g, n, p),
        forall|i: int, j: int|
            0 <= i < n && 0 <= j < n && (#[trigger] g[i][j]) !is Empty ==> g[i][j]
                == Cell::Occupied(p),
        evaluation_of(g, n, r),
    ensures
        r == Some(Outcome::Win(p)),
{
    assert(has_winner(g, n));
    let o = r->Some_0;
    let q = o->Win_0;
    assert(r == Some(Outcome::Win(q)));
    assert(wins(g, n, q));
    if exists|r0: int| 0 <= r0 < n && row_won(g, n, r0, q) {
        let r0 = choose|r0: int| 0 <= r0 < n && row_won(g, n, r0, q);
        assert(g[r0][0] == Cell::Occupied(q));
    } else if exists|c0: int| 0 <= c0 < n && col_won(g, n, c0, q) {
        let c0 = choose|c0: int| 0 <= c0 < n && col_won(g, n, c0, q);
        assert(g[0][c0] == Cell::Occupied(q));
    } else if main_diag_won(g, n, q) {
        assert(g[0][0] == Cell::Occupied(q));
    } else {
        assert(g[0][n - 1] == Cell::Occupied(q));
    }
    assert(q == p);
}

/// Evaluator correctness, draw case: on a full board without a winning
/// line, anything the evaluator's contract allows is `Draw`.
pub proof fn lemma_evaluation_full_draw(g: Seq<Seq<Cell>>, n: int, r: Option<Outcome>)
    requires
        !has_winner(g, n),
        grid_full(g, n),
        evaluation_of(g, n, r),
    ensures
        r == Some(Outcome::Draw),
{
}

/// Evaluator correctness, continuing case: on a board that is not full and
/// has no winning line, anything the evaluator's contract allows is `None`.
pub proof fn lemma_evaluation_no_line_continues(g: Seq<Seq<Cell>>, n: int, r: Option<Outcome>)
    requires
        !has_winner(g, n),
        !grid_full(g, n),
        evaluation_of(g, n, r),
    ensures
        r is None,
{
}

/// The player filling row `row` completely, if there is one.
fn row_winner(board: &BoardState, row: usize) -> (r: Option<Player>)
    requires
        board.wf(),
        row < board.side(),
    ensures
        (r matches Some(p) ==> row_won(board@, board.side(), row as int, p)),
        r is None ==> forall|p: Player| !row_won(board@, board.side(), row as int, p),
{
    let n = board.size();
    match board.cell(row, 0) {
        Cell::Empty => {
            proof {
                assert forall|p: Player| !row_won(board@, board.side(), row as int, p) by {
                    if row_won(board@, board.side(), row as int, p) {
                        assert(board@[row as int][0] == Cell::Occupied(p));
                    }
                }
            }
            None
        },
        Cell::Occupied(p) => {
            let mut col: usize = 1;
            let mut all_match = true;
            while col < n
                invariant
                    board.wf(),
                    n == board.side(),
                    row < n,
                    1 <= col <= n,
                    all_match ==> forall|j: int|
                        0 <= j < col ==> board@[row as int][j] == Cell::Occupied(p),
                    !all_match ==> board@[row as int][0] == Cell::Occupied(p) && exists|j: int|
                        0 <= j < n && board@[row as int][j] != Cell::Occupied(p),
                decreases n - col,
            {
                if board.cell(row, col) != Cell::Occupied(p) {
                    all_match = false;
                }
                col = col + 1;
            }
            if all_match {
                Some(p)
            } else {
                proof {
                    assert forall|q: Player| !row_won(board@, board.side(), row as int, q) by {
                        if row_won(board@, board.side(), row as int, q) {
                            assert(board@[row as int][0] == Cell::Occupied(q));
                            let j = choose|j: int|
                                0 <= j < n && board@[row as int][j] != Cell::Occupied(p);
                            assert(board@[row as int][j] == Cell::Occupied(q));
                        }
                    }
                }
                None
            }
        },
    }
}

/// The player filling column `col` completely, if there is one.
fn col_winner(board: &BoardState, col: usize) -> (r: Option<Player>)
    requires
        board.wf(),
        col < board.side(),
    ensures
        (r matches Some(p) ==> col_won(board@, board.side(), col as int, p)),
        r is None ==> forall|p: Player| !col_won(board@, board.side(), col as int, p),
{
    let n = board.size();
    match board.cell(0, col) {
        Cell::Empty => {
            proof {
                assert forall|p: Player| !col_won(board@, board.side(), col as int, p) by {
                    if col_won(board@, board.side(), col as int, p) {
                        assert(board@[0][col as int] == Cell::Occupied(p));
                    }
                }
            }
            None
        },
        Cell::Occupied(p) => {
            let mut row: usize = 1;
            let mut all_match = true;
            while row < n
                invariant
                    board.wf(),
                    n == board.side(),
                    col < n,
                    1 <= row <= n,
                    all_match ==> forall|i: int|
                        0 <= i < row ==> board@[i][col as int] == Cell::Occupied(p),
                    !all_match ==> board@[0][col as int] == Cell::Occupied(p) && exists|i: int|
                        0 <= i < n && board@[i][col as int] != Cell::Occupied(p),
                decreases n - row,
            {
                if board.cell(row, col) != Cell::Occupied(p) {
                    all_match = false;
                }
                row = row + 1;
            }
            if all_match {
                Some(p)
            } else {
                proof {
                    assert forall|q: Player| !col_won(board@, board.side(), col as int, q) by {
                        if col_won(board@, board.side(), col as int, q) {
                            assert(board@[0][col as int] == Cell::Occupied(q));
                            let i = choose|i: int|
                                0 <= i < n && board@[i][col as int] != Cell::Occupied(p);
                            assert(board@[i][col as int] == Cell::Occupied(q));
                        }
                    }
                }
                None
            }
        },
    }
}

/// The player filling the main diagonal completely, if there is one.
fn main_diag_winner(board: &BoardState) -> (r: Option<Player>)
    requires
        board.wf(),
    ensures
        (r matches Some(p) ==> main_diag_won(board@, board.side(), p)),
        r is None ==> forall|p: Player| !main_diag_won(board@, board.side(), p),
{
    let n = board.size();
    match board.cell(0, 0) {
        Cell::Empty => {
            proof {
                assert forall|p: Player| !main_diag_won(board@, board.side(), p) by {
                    if main_diag_won(board@, board.side(), p) {
                        assert(board@[0][0] == Cell::Occupied(p));
                    }
                }
            }
            None
        },
        Cell::Occupied(p) => {
            let mut i: usize = 1;
            let mut all_match = true;
            while i < n
                invariant
                    board.wf(),
                    n == board.side(),
                    1 <= i <= n,
                    all_match ==> forall|k: int| 0 <= k < i ==> board@[k][k] == Cell::Occupied(p),
                    !all_match ==> board@[0][0] == Cell::Occupied(p) && exists|k: int|
                        0 <= k < n && board@[k][k] != Cell::Occupied(p),
                decreases n - i,
            {
                if board.cell(i, i) != Cell::Occupied(p) {
                    all_match = false;
                }
                i = i + 1;
            }
            if all_match {
                Some(p)
            } else {
                proof {
                    assert forall|q: Player| !main_diag_won(board@, board.side(), q) by {
                        if main_diag_won(board@, board.side(), q) {
                            assert(board@[0][0] == Cell::Occupied(q));
                            let k = choose|k: int| 0 <= k < n && board@[k][k] != Cell::Occupied(p);
                            assert(board@[k][k] == Cell::Occupied(q));
                        }
                    }
                }
                None
            }
        },
    }
}

/// The player filling the anti-diagonal completely, if there is one.
fn anti_diag_winner(board: &BoardState) -> (r: Option<Player>)
    requires
        board.wf(),
    ensures
        (r matches Some(p) ==> anti_diag_won(board@, board.side(), p)),
        r is None ==> forall|p: Player| !anti_diag_won(board@, board.side(), p),
{
    let n = board.size();
    match board.cell(0, n - 1) {
        Cell::Empty => {
            proof {
                assert forall|p: Player| !anti_diag_won(board@, board.side(), p) by {
                    if anti_diag_won(board@, board.side(), p) {
                        assert(board@[0][board.side() - 1] == Cell::Occupied(p));
                    }
                }
            }
            None
        },
        Cell::Occupied(p) => {
            let mut i: usize = 1;
            let mut all_match = true;
            while i < n
                invariant
                    board.wf(),
                    n == board.side(),
                    1 <= i <= n,
                    all_match ==> forall|k: int|
                        0 <= k < i ==> board@[k][n - 1 - k] == Cell::Occupied(p),
                    !all_match ==> board@[0][n as int - 1] == Cell::Occupied(p) && exists|k: int|
                        0 <= k < n && board@[k][n - 1 - k] != Cell::Occupied(p),
                decreases n - i,
            {
                if board.cell(i, n - 1 - i) != Cell::Occupied(p) {
                    all_match = false;
                }
                i = i + 1;
            }
            if all_match {
                Some(p)
            } else {
                proof {
                    assert forall|q: Player| !anti_diag_won(board@, board.side(), q) by {
                        if anti_diag_won(board@, board.side(), q) {
                            assert(board@[0][board.side() - 1] == Cell::Occupied(q));
                            let k = choose|k: int|
                                0 <= k < n && board@[k][n - 1 - k] != Cell::Occupied(p);
                            assert(board@[k][n - 1 - k] == Cell::Occupied(q));
                        }
                    }
                }
                None
            }
        },
    }
}

/// Scan rows, then columns, then the main diagonal, then the anti-diagonal,
/// for a player owning a complete line. At most one winning line can exist
/// on any board reached by alternating play, so the scan order is
/// immaterial there; on other boards the first line found in that order is
/// returned.
pub fn check_win_condition(board: &BoardState) -> (r: Option<Player>)
    requires
        board.wf(),
    ensures
        (r matches Some(p) ==> wins(board@, board.side(), p)),
        has_winner(board@, board.side()) ==> r is Some,
{
    let n = board.size();
    let mut row: usize = 0;
    while row < n
        invariant
            board.wf(),
            n == board.side(),
            row <= n,
            forall|i: int, p: Player|
                0 <= i < row ==> !(#[trigger] row_won(board@, n as int, i, p)),
        decreases n - row,
    {
        match row_winner(board, row) {
            Some(p) => {
                return Some(p);
            },
            None => {},
        }
        row = row + 1;
    }
    let mut col: usize = 0;
    while col < n
        invariant
            board.wf(),
            n == board.side(),
            col <= n,
            forall|i: int, p: Player| 0 <= i < n ==> !(#[trigger] row_won(board@, n as int, i, p)),
            forall|j: int, p: Player|
                0 <= j < col ==> !(#[trigger] col_won(board@, n as int, j, p)),
        decreases n - col,
    {
        match col_winner(board, col) {
            Some(p) => {
                return Some(p);
            },
            None => {},
        }
        col = col + 1;
    }
    match main_diag_winner(board) {
        Some(p) => {
            return Some(p);
        },
        None => {},
    }
    match anti_diag_winner(board) {
        Some(p) => {
            return Some(p);
        },
        None => {},
    }
    proof {
        assert forall|p: Player| !wins(board@, n as int, p) by {
            if exists|r0: int| 0 <= r0 < n && row_won(board@, n as int, r0, p) {
                let r0 = choose|r0: int| 0 <= r0 < n && row_won(board@, n as int, r0, p);
                assert(!row_won(board@, n as int, r0, p));
            }
            if exists|c0: int| 0 <= c0 < n && col_won(board@, n as int, c0, p) {
                let c0 = choose|c0: int| 0 <= c0 < n && col_won(board@, n as int, c0, p);
                assert(!col_won(board@, n as int, c0, p));
            }
        }
    }
    None
}

/// Evaluate the current grid, in the row, column, diagonal scan order: a
/// winner's line yields that player's win; a full board without one is a
/// draw; otherwise the game continues.
pub fn evaluate(board: &BoardState) -> (r: Option<Outcome>)
    requires
        board.wf(),
    ensures
        evaluation_of(board@, board.side(), r),
{
    match check_win_condition(board) {
        Some(p) => Some(Outcome::Win(p)),
        None => {
            if board.is_full() {
                Some(Outcome::Draw)
            } else {
                None
            }
        },
    }
}

} // verus!
