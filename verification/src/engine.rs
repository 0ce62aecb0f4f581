//! The turn/session state machine: whose turn it is, whether the session
//! has concluded, move application with validation and evaluation, and the
//! reset protocol.

use vstd::prelude::*;

use crate::board::BoardState;
use crate::board::Cell;
use crate::board::MoveError;
use crate::board::Player;
use crate::board::empty_grid;
use crate::board::grid_full;
use crate::evaluator::Outcome;
use crate::evaluator::evaluate;
use crate::evaluator::has_winner;
use crate::evaluator::wins;

verus! {

/// Where the session stands: still being played, with the player to move,
/// or concluded with an outcome. The only way out of `Finished` is an
/// explicit reset.
#[derive(Clone, Copy, Debug, PartialEq, Eq, Structural)]
pub enum Status {
    InProgress(Player),
    Finished(Outcome),
}

/// A play session: the board plus the turn/session status. The session is
/// the one owner of its board; readers go through the queries below.
pub struct GameState {
    board: BoardState,
    status: Status,
}

impl GameState {
    /// The grid of the session's board.
    pub closed spec fn grid(self) -> Seq<Seq<Cell>> {
        self.board@
    }

    /// The side length N, fixed for the session's lifetime.
    pub closed spec fn side(self) -> int {
        self.board.side()
    }

    /// Where the session stands.
    pub closed spec fn state(self) -> Status {
        self.status
    }

    /// The board keeps its N-by-N shape.
    pub open spec fn wf(self) -> bool {
        crate::board::grid_wf(self.grid(), self.side())
    }

    /// A new session: an empty N-by-N board, `Player1` to move.
    pub fn new(n: usize) -> (game: GameState)
        requires
            1 <= n,
        ensures
            game.wf(),
            game.side() == n,
            game.grid() == empty_grid(n as int),
            game.state() == Status::InProgress(Player::Player1),
    {
        GameState { board: BoardState::new(n), status: Status::InProgress(Player::Player1) }
    }

    /// The side length N.
    pub fn board_size(&self) -> (n: usize)
        ensures
            n == self.side(),
    {
        self.board.size()
    }

    /// The cell at `(row, col)` of the session's board.
    pub fn cell_at(&self, row: usize, col: usize) -> (c: Cell)
        requires
            self.wf(),
            row < self.side(),
            col < self.side(),
        ensures
            c == self.grid()[row as int][col as int],
    {
        self.board.cell(row, col)
    }

    /// Where the session stands.
    pub fn status(&self) -> (s: Status)
        ensures
            s == self.state(),
    {
        self.status
    }

    /// The player to move; meaningful only while the session is in
    /// progress.
    pub fn current_player(&self) -> (p: Player)
        requires
            self.state() is InProgress,
        ensures
            self.state() == Status::InProgress(p),
    {
        match self.status {
            Status::InProgress(p) => p,
            Status::Finished(_) => {
                proof {
                    assert(false);
                }
                Player::Player1
            },
        }
    }

    /// The session's outcome, set exactly when the session has concluded.
    pub fn outcome(&self) -> (o: Option<Outcome>)
        ensures
            self.state() matches Status::Finished(oc) ==> o == Some(oc),
            self.state() is InProgress ==> o is None,
    {
        match self.status {
            Status::InProgress(_) => None,
            Status::Finished(oc) => Some(oc),
        }
    }

    /// Whether the session has concluded: true exactly when an outcome is
    /// set.
    pub fn is_over(&self) -> (b: bool)
        ensures
            b == (self.state() is Finished),
    {
        match self.status {
            Status::InProgress(_) => false,
            Status::Finished(_) => true,
        }
    }

    /// Attempt to place the current player's piece at `(row, col)`. The
    /// whole effect is pinned by [`move_contract`]: rejected with
    /// `GameOver` after the session concluded, `OutOfBounds` off the board,
    /// `CellOccupied` on a held cell, each without any state change; on
    /// success exactly that one cell changes to the mover's piece, the
    /// evaluator decides whether the session concludes, and the turn
    /// toggles exactly when it does not.
    pub fn apply_move(&mut self, row: usize, col: usize) -> (r: Result<(), MoveError>)
        requires
            old(self).wf(),
        ensures
            final(self).wf(),
            move_contract(*old(self), *final(self), row as int, col as int, r),
    {
        let p = match self.status {
            Status::InProgress(p) => p,
            Status::Finished(_) => {
                return Err(MoveError::GameOver);
            },
        };
        match self.board.place(row, col, p) {
            Err(e) => Err(e),
            Ok(()) => {
                match evaluate(&self.board) {
                    Some(o) => {
                        self.status = Status::Finished(o);
                    },
                    None => {
                        self.status = Status::InProgress(p.other());
                    },
                }
                Ok(())
            },
        }
    }

    /// Reset the session: always legal, from any state. The board is
    /// cleared to all-`Empty` and `Player1` is to move, exactly as at
    /// creation; the side length is kept.
    pub fn reset(&mut self)
        requires
            old(self).wf(),
        ensures
            final(self).wf(),
            final(self).side() == old(self).side(),
            final(self).grid() == empty_grid(old(self).side()),
            final(self).state() == Status::InProgress(Player::Player1),
    {
        self.board.reset();
        self.status = Status::InProgress(Player::Player1);
    }
}

/// The grid after `p` takes the empty cell `(row, col)` of `g`.
pub open spec fn placed(g: Seq<Seq<Cell>>, row: int, col: int, p: Player) -> Seq<Seq<Cell>> {
    g.update(row, g[row].update(col, Cell::Occupied(p)))
}

/// Everything one `apply_move(row, col)` call does, relating the session
/// before (`pre`) to the session after (`post`) and to the result `r`.
/// Exactly one of the four cases applies, and each pins the result and the
/// session after.
pub open spec fn move_contract(
    pre: GameState,
    post: GameState,
    row: int,
    col: int,
    r: Result<(), MoveError>,
) -> bool {
    &&& post.side() == pre.side()
    // Rejections, each if and only if its condition, and without state change.
    &&& (r == Err::<(), MoveError>(MoveError::GameOver) <==> pre.state() is Finished)
    &&& (r == Err::<(), MoveError>(MoveError::OutOfBounds) <==> pre.state() is InProgress
        && !(0 <= row < pre.side() && 0 <= col < pre.side()))
    &&& (r == Err::<(), MoveError>(MoveError::CellOccupied) <==> pre.state() is InProgress
        && 0 <= row < pre.side() && 0 <= col < pre.side() && pre.grid()[row][col] !is Empty)
    &&& (r is Err ==> post.grid() == pre.grid() && post.state() == pre.state())
    // Success, if and only if the session is in progress and the cell is an
    // empty one; the mover's piece lands on that cell and the evaluator
    // decides what follows.
    &&& (r is Ok <==> pre.state() is InProgress
        && 0 <= row < pre.side() && 0 <= col < pre.side() && pre.grid()[row][col] is Empty)
    &&& (pre.state() matches Status::InProgress(p) ==> (r is Ok ==> move_applied(
        pre,
        post,
        row,
        col,
        p,
    )))
}

/// The successful case of [`move_contract`]: the one cell changes from
/// `Empty` to the mover's piece, the session concludes exactly as the
/// evaluator says, and the turn toggles exactly when it does not conclude.
pub open spec fn move_applied(
    pre: GameState,
    post: GameState,
    row: int,
    col: int,
    p: Player,
) -> bool {
    let g2 = placed(pre.grid(), row, col, p);
    let n = pre.side();
    &&& post.grid() == g2
    &&& post.grid()[row][col] == Cell::Occupied(p)
    &&& (has_winner(g2, n) ==> (post.state() matches Status::Finished(o) && o matches Outcome::Win(
        q,
    ) && wins(g2, n, q)))
    &&& (!has_winner(g2, n) && grid_full(g2, n) ==> post.state() == Status::Finished(Outcome::Draw))
    &&& (!has_winner(g2, n) && !grid_full(g2, n) ==> post.state() == Status::InProgress(
        p.spec_other(),
    ))
}

/// Each accepted move records the mover: the player to move before the
/// call is the player held by the cell just filled.
pub proof fn lemma_move_records_mover(
    pre: GameState,
    post: GameState,
    row: int,
    col: int,
    p: Player,
)
    requires
        pre.state() == Status::InProgress(p),
        move_contract(pre, post, row, col, Ok(())),
    ensures
        post.grid()[row][col] == Cell::Occupied(p),
{
}

/// Idempotence of rejection: a rejected move changes nothing, and
/// repeating the same call is rejected with the same error and changes
/// nothing either, however often it is repeated.
pub proof fn lemma_rejection_idempotent(
    pre: GameState,
    mid: GameState,
    post: GameState,
    row: int,
    col: int,
    r1: Result<(), MoveError>,
    r2: Result<(), MoveError>,
)
    requires
        move_contract(pre, mid, row, col, r1),
        move_contract(mid, post, row, col, r2),
        r1 is Err,
    ensures
        mid.grid() == pre.grid() && mid.state() == pre.state() && mid.side() == pre.side(),
        r2 == r1,
        post.grid() == pre.grid() && post.state() == pre.state() && post.side() == pre.side(),
{
}

/// Terminal lock: once the session is finished, every move attempt fails
/// with `GameOver` and mutates nothing, so a second attempt finds the very
/// same state and fails the same way.
pub proof fn lemma_terminal_lock(
    pre: GameState,
    mid: GameState,
    post: GameState,
    row1: int,
    col1: int,
    row2: int,
    col2: int,
    r1: Result<(), MoveError>,
    r2: Result<(), MoveError>,
)
    requires
        pre.state() is Finished,
        move_contract(pre, mid, row1, col1, r1),
        move_contract(mid, post, row2, col2, r2),
    ensures
        r1 == Err::<(), MoveError>(MoveError::GameOver),
        r2 == Err::<(), MoveError>(MoveError::GameOver),
        mid.grid() == pre.grid() && mid.state() == pre.state(),
        post.grid() == pre.grid() && post.state() == pre.state(),
{
}

} // verus!
