//! The board engine: a square grid of marks, move placement with
//! validation and win detection, a fullness query, and a textual rendering.
//!
//! The engine keeps the game's exact rules, quirks included, and each
//! quirk is written into the contracts below:
//!
//! - The bounds rule accepts a location when `row + column` is at most
//!   `2 * size - 2`; the two indices are never bounded individually, so a
//!   location such as `(0, 4)` is accepted on a 3x3 board and addresses the
//!   flat cell `4`, which is `(1, 1)` on the grid.
//! - Win detection always tests the full row, the full column, and both
//!   full diagonals, whether or not the placed cell lies on a diagonal.
//! - `is_full` reports `true` exactly when every cell is still empty, the
//!   inverse of "no free cell remains"; see [`GameBoard::is_full`].

use vstd::prelude::*;
use vstd::pervasive::VecAdditionalExecFns;
use vstd::string::StringExecFns;

verus! {

/// One grid cell: empty, or marked by one of the two players.
#[derive(Copy, Clone, Debug, PartialEq, Eq, Structural)]
#[allow(non_camel_case_types)]
pub enum Square {
    EMPTY,
    X,
    O,
}

/// Why a placement was rejected. Either way the board is left unchanged.
#[derive(Copy, Clone, Debug, PartialEq, Eq, Structural)]
pub enum PlaceError {
    /// The location failed the bounds rule.
    OffBoard,
    /// The addressed cell already holds a mark.
    AlreadyOccupied,
}

/// A square grid of side `size`, stored row-major as `size * size` cells.
pub struct GameBoard {
    board: Vec<Square>,
    size: usize,
}

/// The flat row-major position of `(row, column)` on a board of side `size`.
pub open spec fn flat_index(size: nat, row: int, column: int) -> int {
    row * size + column
}

/// The bounds rule: a location is accepted when `row + column` is at most
/// `2 * size - 2`. Only the sum is tested; neither index is bounded on its
/// own, so a single index may exceed `size - 1` and still be accepted.
pub open spec fn location_accepted(size: nat, row: int, column: int) -> bool {
    row + column <= 2 * size - 2
}

/// Every cell of the row `row` holds `mark`.
pub open spec fn row_filled_with(b: Seq<Square>, size: nat, row: int, mark: Square) -> bool {
    forall|i: int| 0 <= i < size ==> b[flat_index(size, row, i)] == mark
}

/// Every cell of the column `column` holds `mark`.
pub open spec fn column_filled_with(b: Seq<Square>, size: nat, column: int, mark: Square) -> bool {
    forall|i: int| 0 <= i < size ==> b[flat_index(size, i, column)] == mark
}

/// Every cell of the main diagonal holds `mark`.
pub open spec fn diagonal_filled_with(b: Seq<Square>, size: nat, mark: Square) -> bool {
    forall|i: int| 0 <= i < size ==> b[flat_index(size, i, i)] == mark
}

/// The flat position of the anti-diagonal cell in row `i`.
pub open spec fn anti_diagonal_index(size: nat, i: int) -> int {
    flat_index(size, i, size - 1 - i)
}

/// Every cell of the anti-diagonal holds `mark`.
pub open spec fn anti_diagonal_filled_with(b: Seq<Square>, size: nat, mark: Square) -> bool {
    forall|i: int| 0 <= i < size ==> b[#[trigger] anti_diagonal_index(size, i)] == mark
}

/// The win rule, evaluated at a location: the move won when the full row,
/// the full column, the main diagonal, or the anti-diagonal is uniformly
/// filled with the mark found at that location. The two diagonals are
/// tested even when the location does not lie on them, so a move off a
/// diagonal still wins once that diagonal is filled with the mover's mark.
pub open spec fn winning_at(b: Seq<Square>, size: nat, row: int, column: int) -> bool {
    let mark = b[flat_index(size, row, column)];
    ||| row_filled_with(b, size, row, mark)
    ||| column_filled_with(b, size, column, mark)
    ||| diagonal_filled_with(b, size, mark)
    ||| anti_diagonal_filled_with(b, size, mark)
}

/// A board of side `size` on which no mark has been placed.
pub open spec fn empty_board(size: nat) -> Seq<Square> {
    Seq::new(size * size, |i: int| Square::EMPTY)
}

/// What `is_full` reports of a board: `true` exactly when every cell is
/// still empty.
pub open spec fn board_reported_full(b: Seq<Square>) -> bool {
    forall|i: int| 0 <= i < b.len() ==> b[i] == Square::EMPTY
}

/// The sentence reported for a rejection.
pub open spec fn message_seq(e: PlaceError) -> Seq<char> {
    match e {
        PlaceError::OffBoard => "The given location is off of the board."@,
        PlaceError::AlreadyOccupied => "There was already a player in the placed location."@,
    }
}

impl PlaceError {
    /// The sentence shown to the player for this rejection.
    pub fn message(&self) -> (r: String)
        ensures
            r@ == message_seq(*self),
    {
        let s = match self {
            PlaceError::OffBoard => "The given location is off of the board.",
            PlaceError::AlreadyOccupied => "There was already a player in the placed location.",
        };
        s.to_owned()
    }
}

/// The character a cell is shown as: `_`, `X` or `O`.
pub open spec fn symbol_char(sq: Square) -> char {
    match sq {
        Square::EMPTY => '_',
        Square::X => 'X',
        Square::O => 'O',
    }
}

/// The character for one decimal digit.
pub open spec fn digit_char(d: nat) -> char {
    if d == 0 {
        '0'
    } else if d == 1 {
        '1'
    } else if d == 2 {
        '2'
    } else if d == 3 {
        '3'
    } else if d == 4 {
        '4'
    } else if d == 5 {
        '5'
    } else if d == 6 {
        '6'
    } else if d == 7 {
        '7'
    } else if d == 8 {
        '8'
    } else {
        '9'
    }
}

/// The decimal digits of `n`, most significant first.
pub open spec fn decimal_seq(n: nat) -> Seq<char>
    decreases n,
{
    if n < 10 {
        seq![digit_char(n)]
    } else {
        decimal_seq(n / 10).push(digit_char(n % 10))
    }
}

/// One rendered cell: the cell's symbol between single spaces.
pub open spec fn rendered_square(sq: Square) -> Seq<char> {
    seq![' ', symbol_char(sq), ' ']
}

/// The text opening the line for `row`: `Row `, the row number, `: |`.
pub open spec fn row_label(row: nat) -> Seq<char> {
    seq!['R', 'o', 'w', ' '] + decimal_seq(row) + seq![':', ' ', '|']
}

/// The first `count` cells of `row`, each rendered as three characters.
pub open spec fn rendered_cells(b: Seq<Square>, size: nat, row: int, count: int) -> Seq<char>
    decreases count,
{
    if count <= 0 {
        Seq::empty()
    } else {
        rendered_cells(b, size, row, count - 1)
            + rendered_square(b[flat_index(size, row, count - 1)])
    }
}

/// One full rendered line for `row`, closed by a pipe and a newline.
pub open spec fn rendered_row(b: Seq<Square>, size: nat, row: int) -> Seq<char> {
    row_label(row as nat) + rendered_cells(b, size, row, size as int) + seq!['|', '\n']
}

/// The first `count` rendered lines of the board.
pub open spec fn rendered_rows(b: Seq<Square>, size: nat, count: int) -> Seq<char>
    decreases count,
{
    if count <= 0 {
        Seq::empty()
    } else {
        rendered_rows(b, size, count - 1) + rendered_row(b, size, count - 1)
    }
}

/// The whole rendered board: one line per row, in row order.
pub open spec fn rendered_board(b: Seq<Square>, size: nat) -> Seq<char> {
    rendered_rows(b, size, size as int)
}

impl Square {
    /// The one-character text this cell is shown as: `_`, `X` or `O`.
    pub fn symbol(&self) -> (r: String)
        ensures
            r@ == seq![symbol_char(*self)],
    {
        proof {
            reveal_strlit("_");
            reveal_strlit("X");
            reveal_strlit("O");
        }
        let s = match self {
            Square::EMPTY => "_",
            Square::X => "X",
            Square::O => "O",
        };
        let r = s.to_owned();
        proof {
            assert(r@ =~= seq![symbol_char(*self)]);
        }
        r
    }
}

/// Appends the decimal form of `n` to `out`, most significant digit first.
fn push_decimal(out: &mut String, n: usize)
    ensures
        final(out)@ == old(out)@ + decimal_seq(n as nat),
    decreases n,
{
    if n >= 10 {
        push_decimal(out, n / 10);
    }
    proof {
        reveal_strlit("0");
        reveal_strlit("1");
        reveal_strlit("2");
        reveal_strlit("3");
        reveal_strlit("4");
        reveal_strlit("5");
        reveal_strlit("6");
        reveal_strlit("7");
        reveal_strlit("8");
        reveal_strlit("9");
    }
    let d = match n % 10 {
        0 => "0",
        1 => "1",
        2 => "2",
        3 => "3",
        4 => "4",
        5 => "5",
        6 => "6",
        7 => "7",
        8 => "8",
        _ => "9",
    };
    out.append(d);
    proof {
        assert(out@ =~= old(out)@ + decimal_seq(n as nat));
    }
}

impl View for GameBoard {
    type V = Seq<Square>;

    closed spec fn view(&self) -> Seq<Square> {
        self.board@
    }
}

impl GameBoard {
    /// The side length the board was constructed with.
    pub closed spec fn side(&self) -> nat {
        self.size as nat
    }

    /// A well-formed board has a positive side and exactly `side * side`
    /// cells.
    pub open spec fn wf(&self) -> bool {
        &&& 1 <= self.side()
        &&& self@.len() == self.side() * self.side()
    }

    /// A board size of 3 gives a 3x3 board: `size * size` cells, all empty.
    pub fn new(board_size: usize) -> (r: GameBoard)
        requires
            1 <= board_size,
            board_size * board_size <= usize::MAX,
        ensures
            r.wf(),
            r.side() == board_size,
            r@ == empty_board(board_size as nat),
    {
        let count: usize = board_size * board_size;
        let mut board: Vec<Square> = Vec::new();
        for i in 0..count
            invariant
                board@.len() == i,
                forall|j: int| 0 <= j < i ==> board@[j] == Square::EMPTY,
        {
            board.push(Square::EMPTY);
        }
        proof {
            assert(board@ =~= empty_board(board_size as nat));
        }
        GameBoard { board, size: board_size }
    }

    /// Whether the given location passes the bounds rule. See
    /// [`location_accepted`]: only the sum of the two indices is tested.
    pub fn is_on_board(&self, row_index: usize, column_index: usize) -> (r: bool)
        requires
            self.wf(),
        ensures
            r == location_accepted(self.side(), row_index as int, column_index as int),
    {
        proof {
            // The vector holds side * side cells, so that count fits in usize.
            assert(self.board.len() == self@.len());
            assert(self.side() == 1 || 2 * self.side() <= self.side() * self.side())
                by (nonlinear_arith)
                requires 1 <= self.side();
        }
        let limit: usize = self.size * 2 - 1;
        column_index <= usize::MAX - row_index && row_index + column_index < limit
    }

    /// The cell at the given location, read at flat position
    /// `row * size + column`. A column index past `size - 1` is not
    /// rejected by the bounds rule; the read then wraps into a later row,
    /// and the contract says exactly that. The flat position must stay
    /// inside the grid, since the read is unchecked beyond the bounds rule.
    pub fn get_square(&self, row_index: usize, column_index: usize) -> (r: Square)
        requires
            self.wf(),
            location_accepted(self.side(), row_index as int, column_index as int),
            flat_index(self.side(), row_index as int, column_index as int) < self@.len(),
        ensures
            r == self@[flat_index(self.side(), row_index as int, column_index as int)],
    {
        proof {
            // The vector holds the cells, so the flat position fits in usize.
            assert(self.board.len() == self@.len());
        }
        self.board[row_index * self.size + column_index]
    }

    /// Whether the mark found at the given location has completed a line.
    ///
    /// Scans the location's full row, its full column, and both diagonals;
    /// the move won when at least one of the four is uniformly filled with
    /// that mark. Both diagonals are scanned whether or not the location
    /// lies on them. The scan reads every cell of the row and the column,
    /// so both indices must lie inside `[0, size)` here.
    pub fn is_player_won(&self, row_index: usize, column_index: usize) -> (r: bool)
        requires
            self.wf(),
            row_index < self.side(),
            column_index < self.side(),
        ensures
            r == winning_at(self@, self.side(), row_index as int, column_index as int),
    {
        proof {
            assert(self.board.len() == self@.len());
            assert(flat_index(self.side(), row_index as int, column_index as int)
                < self.side() * self.side()) by (nonlinear_arith)
                requires
                    row_index < self.side(),
                    column_index < self.side();
        }
        let player = self.get_square(row_index, column_index);

        let ghost b = self@;
        let ghost n = self.side();
        let mut is_row_fail = false;
        let mut is_column_fail = false;
        let mut is_diagonal_fail = false;
        let mut is_anti_diagonal_fail = false;
        for i in 0..self.size
            invariant
                self.wf(),
                self@ == b,
                self.side() == n,
                row_index < n,
                column_index < n,
                player == b[flat_index(n, row_index as int, column_index as int)],
                is_row_fail == !(forall|j: int| 0 <= j < i
                    ==> b[flat_index(n, row_index as int, j)] == player),
                is_column_fail == !(forall|j: int| 0 <= j < i
                    ==> b[flat_index(n, j, column_index as int)] == player),
                is_diagonal_fail == !(forall|j: int| 0 <= j < i
                    ==> b[flat_index(n, j, j)] == player),
                is_anti_diagonal_fail == !(forall|j: int| 0 <= j < i
                    ==> b[#[trigger] anti_diagonal_index(n, j)] == player),
        {
            proof {
                assert(flat_index(n, row_index as int, i as int) < n * n
                    && flat_index(n, i as int, column_index as int) < n * n
                    && flat_index(n, i as int, i as int) < n * n
                    && 0 <= anti_diagonal_index(n, i as int) < n * n) by (nonlinear_arith)
                    requires
                        row_index < n,
                        column_index < n,
                        i < n;
            }
            // Row check
            if self.get_square(row_index, i) != player {
                is_row_fail = true;
            }
            // Column check
            if self.get_square(i, column_index) != player {
                is_column_fail = true;
            }
            // Diagonal check
            if self.get_square(i, i) != player {
                is_diagonal_fail = true;
            }
            // Anti diagonal check
            if self.get_square(i, self.size - i - 1) != player {
                is_anti_diagonal_fail = true;
            }
        }

        !(is_row_fail && is_column_fail && is_diagonal_fail && is_anti_diagonal_fail)
    }

    /// Places a player's mark and reports whether the move won.
    ///
    /// A location failing the bounds rule is rejected with `OffBoard`; an
    /// accepted location whose cell already holds a mark is rejected with
    /// `AlreadyOccupied`; in both cases the board is unchanged. Otherwise
    /// exactly that one cell transitions from empty to `player`, and the
    /// result reports the win rule evaluated at the location.
    ///
    /// Two preconditions exclude the accepted locations that the flat
    /// addressing cannot reach safely: the flat position must lie inside
    /// the grid (else the occupancy read would leave it), and a placement
    /// that would land must have both indices inside `[0, size)` (else the
    /// win scan would leave the grid). Callers must reject such locations
    /// themselves before calling.
    pub fn place_player(&mut self, player: Square, row_index: usize, column_index: usize)
        -> (r: Result<bool, PlaceError>)
        requires
            old(self).wf(),
            player != Square::EMPTY,
            location_accepted(old(self).side(), row_index as int, column_index as int)
                ==> flat_index(old(self).side(), row_index as int, column_index as int)
                    < old(self)@.len(),
            (location_accepted(old(self).side(), row_index as int, column_index as int)
                && old(self)@[flat_index(old(self).side(), row_index as int, column_index as int)]
                    == Square::EMPTY)
                ==> row_index < old(self).side() && column_index < old(self).side(),
        ensures
            final(self).wf(),
            final(self).side() == old(self).side(),
            !location_accepted(old(self).side(), row_index as int, column_index as int)
                ==> r == Err::<bool, PlaceError>(PlaceError::OffBoard)
                    && final(self)@ == old(self)@,
            (location_accepted(old(self).side(), row_index as int, column_index as int)
                && old(self)@[flat_index(old(self).side(), row_index as int, column_index as int)]
                    != Square::EMPTY)
                ==> r == Err::<bool, PlaceError>(PlaceError::AlreadyOccupied)
                    && final(self)@ == old(self)@,
            (location_accepted(old(self).side(), row_index as int, column_index as int)
                && old(self)@[flat_index(old(self).side(), row_index as int, column_index as int)]
                    == Square::EMPTY)
                ==> final(self)@ == old(self)@.update(
                        flat_index(old(self).side(), row_index as int, column_index as int),
                        player,
                    )
                    && r == Ok::<bool, PlaceError>(winning_at(
                        final(self)@,
                        old(self).side(),
                        row_index as int,
                        column_index as int,
                    )),
    {
        proof {
            // The vector holds the cells, so the flat position fits in usize.
            assert(self.board.len() == self@.len());
        }
        if !self.is_on_board(row_index, column_index) {
            return Err(PlaceError::OffBoard);
        }

        match self.get_square(row_index, column_index) {
            Square::EMPTY => {
                self.board.set(row_index * self.size + column_index, player);
                Ok(self.is_player_won(row_index, column_index))
            },
            _ => Err(PlaceError::AlreadyOccupied),
        }
    }

    /// Whether the board is reported full.
    ///
    /// The scan answers `false` as soon as it meets a cell holding a mark,
    /// and `true` only when every cell is still empty. Despite the name,
    /// this reports an entirely empty board, not a board without free
    /// cells; the quirk is kept deliberately, and the contract states it.
    pub fn is_full(&self) -> (r: bool)
        ensures
            r == board_reported_full(self@),
    {
        for i in 0..self.board.len()
            invariant
                forall|j: int| 0 <= j < i ==> self@[j] == Square::EMPTY,
        {
            if self.board[i] != Square::EMPTY {
                return false;
            }
        }
        true
    }

    /// The textual board: one line per row, each cell shown between
    /// single spaces and the line bracketed by its row label and pipes,
    /// for example `Row 0: | _  X  O |`.
    #[verifier::loop_isolation(false)]
    pub fn render(&self) -> (r: String)
        requires
            self.wf(),
        ensures
            r@ == rendered_board(self@, self.side()),
    {
        proof {
            reveal_strlit("Row ");
            reveal_strlit(": |");
            reveal_strlit("|\n");
            reveal_strlit(" ");
        }
        let mut out = String::new();
        for row in 0..self.size
            invariant
                out@ == rendered_rows(self@, self.side(), row as int),
        {
            out.append("Row ");
            push_decimal(&mut out, row);
            out.append(": |");
            proof {
                assert(out@ =~= rendered_rows(self@, self.side(), row as int)
                    + row_label(row as nat));
            }
            for column in 0..self.size
                invariant
                    out@ == rendered_rows(self@, self.side(), row as int)
                        + row_label(row as nat)
                        + rendered_cells(self@, self.side(), row as int, column as int),
            {
                proof {
                    assert(flat_index(self.side(), row as int, column as int)
                        < self.side() * self.side()) by (nonlinear_arith)
                        requires
                            row < self.side(),
                            column < self.side();
                }
                let sq = self.get_square(row, column);
                out.append(" ");
                let s = sq.symbol();
                out.append(s.as_str());
                out.append(" ");
                proof {
                    assert(out@ =~= rendered_rows(self@, self.side(), row as int)
                        + row_label(row as nat)
                        + rendered_cells(self@, self.side(), row as int, column as int + 1));
                }
            }
            out.append("|\n");
            proof {
                assert(out@ =~= rendered_rows(self@, self.side(), row as int + 1));
            }
        }
        out
    }
}

/// Law: a cell that holds a mark keeps holding one. A placement either
/// leaves the board unchanged or updates one empty cell to a player's
/// mark — the two outcomes `place_player` allows — and under both, a cell
/// that was not empty before is not empty after.
pub proof fn lemma_marked_cell_persists(
    before: Seq<Square>,
    after: Seq<Square>,
    target: int,
    mark: Square,
    i: int,
)
    requires
        after == before
            || (0 <= target < before.len()
                && before[target] == Square::EMPTY
                && mark != Square::EMPTY
                && after == before.update(target, mark)),
        0 <= i < before.len(),
        before[i] != Square::EMPTY,
    ensures
        after.len() == before.len(),
        after[i] != Square::EMPTY,
{
}

/// Law: a board fresh from construction is reported full by `is_full`,
/// whatever its size, since every cell of it is still empty.
pub proof fn lemma_fresh_board_reported_full(size: nat)
    ensures
        board_reported_full(empty_board(size)),
{
}

} // verus!
