//! The board model: an N-by-N grid of cells, created empty, mutated exactly
//! once per accepted move (`Empty` to `Occupied`), and cleared on reset.

use vstd::prelude::*;

verus! {

/// One of exactly two players; no third value is ever valid.
#[derive(Clone, Copy, Debug, PartialEq, Eq, Structural)]
pub enum Player {
    Player1,
    Player2,
}

impl Player {
    /// The opponent of this player.
    pub open spec fn spec_other(self) -> Player {
        match self {
            Player::Player1 => Player::Player2,
            Player::Player2 => Player::Player1,
        }
    }

    /// Turns alternate between the two players.
    pub fn other(self) -> (r: Player)
        ensures
            r == self.spec_other(),
    {
        match self {
            Player::Player1 => Player::Player2,
            Player::Player2 => Player::Player1,
        }
    }
}

/// Occupancy of a single board cell.
#[derive(Clone, Copy, Debug, PartialEq, Eq, Structural)]
pub enum Cell {
    Empty,
    Occupied(Player),
}

/// Why a requested action was rejected. All of these are local and
/// recoverable: the caller discards the input and no state changes.
#[derive(Clone, Copy, Debug, PartialEq, Eq, Structural)]
pub enum MoveError {
    /// The row or column lies outside `[0, N)`.
    OutOfBounds,
    /// The target cell already holds a piece.
    CellOccupied,
    /// A move was attempted after the session concluded.
    GameOver,
}

/// A grid of side length `n` has exactly `n` rows of exactly `n` cells each.
pub open spec fn grid_wf(g: Seq<Seq<Cell>>, n: int) -> bool {
    &&& 1 <= n
    &&& g.len() == n
    &&& forall|r: int| 0 <= r < n ==> (#[trigger] g[r]).len() == n
}

/// The grid of side length `n` whose cells are all `Empty`.
pub open spec fn empty_grid(n: int) -> Seq<Seq<Cell>> {
    Seq::new(n as nat, |r: int| Seq::new(n as nat, |c: int| Cell::Empty))
}

/// Every cell of the grid is `Occupied`.
pub open spec fn grid_full(g: Seq<Seq<Cell>>, n: int) -> bool {
    forall|r: int, c: int| 0 <= r < n && 0 <= c < n ==> !((#[trigger] g[r][c]) is Empty)
}

/// A square grid of cells with a fixed side length, addressable by
/// `(row, col)` with `0 <= row, col < N`.
pub struct BoardState {
    n: usize,
    cells: Vec<Vec<Cell>>,
}

impl View for BoardState {
    type V = Seq<Seq<Cell>>;

    closed spec fn view(&self) -> Seq<Seq<Cell>> {
        self.cells@.map_values(|row: Vec<Cell>| row@)
    }
}

impl BoardState {
    /// The side length N as a mathematical integer.
    pub closed spec fn side(self) -> int {
        self.n as int
    }

    /// The grid is always exactly N-by-N.
    pub open spec fn wf(self) -> bool {
        grid_wf(self@, self.side())
    }

    /// A freshly created board is empty.
    pub fn new(n: usize) -> (board: BoardState)
        requires
            1 <= n,
        ensures
            board.wf(),
            board.side() == n,
            board@ == empty_grid(n as int),
    {
        let board = BoardState { n, cells: empty_cells(n) };
        proof {
            assert(board@ =~~= empty_grid(n as int));
        }
        board
    }

    /// The side length N.
    pub fn size(&self) -> (n: usize)
        ensures
            n == self.side(),
    {
        self.n
    }

    /// The cell at `(row, col)`, for coordinates already known to be on the
    /// board.
    pub fn cell(&self, row: usize, col: usize) -> (c: Cell)
        requires
            self.wf(),
            row < self.side(),
            col < self.side(),
        ensures
            c == self@[row as int][col as int],
    {
        proof {
            assert(self@[row as int].len() == self.side());
        }
        self.cells[row][col]
    }

    /// The cell at `(row, col)`; rejected with `OutOfBounds` if either
    /// coordinate is at or beyond the side length.
    pub fn get(&self, row: usize, col: usize) -> (r: Result<Cell, MoveError>)
        requires
            self.wf(),
        ensures
            row < self.side() && col < self.side() ==> r == Ok::<Cell, MoveError>(
                self@[row as int][col as int],
            ),
            !(row < self.side() && col < self.side()) ==> r == Err::<Cell, MoveError>(
                MoveError::OutOfBounds,
            ),
    {
        if row < self.n && col < self.n {
            proof {
                assert(self@[row as int].len() == self.side());
            }
            Ok(self.cells[row][col])
        } else {
            Err(MoveError::OutOfBounds)
        }
    }

    /// Record `player`'s piece at `(row, col)`. Rejected with `OutOfBounds`
    /// off the board and with `CellOccupied` when the target is not `Empty`;
    /// on success exactly that one cell changes, from `Empty` to
    /// `Occupied(player)`. Placing decides neither turns nor victory.
    pub fn place(&mut self, row: usize, col: usize, player: Player) -> (r: Result<(), MoveError>)
        requires
            old(self).wf(),
        ensures
            final(self).wf(),
            final(self).side() == old(self).side(),
            !(row < old(self).side() && col < old(self).side()) ==> r == Err::<(), MoveError>(
                MoveError::OutOfBounds,
            ) && final(self)@ == old(self)@,
            row < old(self).side() && col < old(self).side() && old(self)@[row as int][col as int]
                !is Empty ==> r == Err::<(), MoveError>(MoveError::CellOccupied) && final(self)@
                == old(self)@,
            row < old(self).side() && col < old(self).side() && old(self)@[row as int][col as int]
                is Empty ==> r == Ok::<(), MoveError>(()) && final(self)@ == old(self)@.update(
                row as int,
                old(self)@[row as int].update(col as int, Cell::Occupied(player)),
            ),
    {
        if !(row < self.n && col < self.n) {
            return Err(MoveError::OutOfBounds);
        }
        if self.cells[row][col] != Cell::Empty {
            return Err(MoveError::CellOccupied);
        }
        self.cells[row][col] = Cell::Occupied(player);
        proof {
            assert(self@ =~~= old(self)@.update(
                row as int,
                old(self)@[row as int].update(col as int, Cell::Occupied(player)),
            ));
        }
        Ok(())
    }

    /// Whether every cell is `Occupied`.
    pub fn is_full(&self) -> (r: bool)
        requires
            self.wf(),
        ensures
            r == grid_full(self@, self.side()),
    {
        let n = self.n;
        let mut row: usize = 0;
        while row < n
            invariant
                self.wf(),
                n == self.side(),
                row <= n,
                forall|i: int, j: int|
                    0 <= i < row && 0 <= j < n ==> #[trigger] self@[i][j] !is Empty,
            decreases n - row,
        {
            let mut col: usize = 0;
            while col < n
                invariant
                    self.wf(),
                    n == self.side(),
                    row < n,
                    col <= n,
                    forall|j: int| 0 <= j < col ==> #[trigger] self@[row as int][j] !is Empty,
                decreases n - col,
            {
                if self.cells[row][col] == Cell::Empty {
                    return false;
                }
                col = col + 1;
            }
            row = row + 1;
        }
        true
    }

    /// Set every cell back to `Empty`. No error conditions.
    pub fn reset(&mut self)
        requires
            old(self).wf(),
        ensures
            final(self).wf(),
            final(self).side() == old(self).side(),
            final(self)@ == empty_grid(old(self).side()),
    {
        self.cells = empty_cells(self.n);
        proof {
            assert(self@ =~~= empty_grid(old(self).side()));
        }
    }
}

/// An `n`-by-`n` nest of vectors, every cell `Empty`.
fn empty_cells(n: usize) -> (cells: Vec<Vec<Cell>>)
    ensures
        cells@.len() == n,
        forall|r: int| 0 <= r < n ==> (#[trigger] cells@[r])@.len() == n,
        forall|r: int, c: int| 0 <= r < n && 0 <= c < n ==> (#[trigger] cells@[r]@[c]) is Empty,
{
    let mut cells: Vec<Vec<Cell>> = Vec::new();
    let mut r: usize = 0;
    while r < n
        invariant
            r <= n,
            cells@.len() == r,
            forall|i: int| 0 <= i < r ==> (#[trigger] cells@[i])@.len() == n,
            forall|i: int, j: int| 0 <= i < r && 0 <= j < n ==> (#[trigger] cells@[i]@[j]) is Empty,
        decreases n - r,
    {
        let mut row: Vec<Cell> = Vec::new();
        let mut c: usize = 0;
        while c < n
            invariant
                c <= n,
                row@.len() == c,
                forall|j: int| 0 <= j < c ==> (#[trigger] row@[j]) is Empty,
            decreases n - c,
        {
            row.push(Cell::Empty);
            c = c + 1;
        }
        cells.push(row);
        r = r + 1;
    }
    cells
}

} // verus!
