//! The board as a sequence of nine cells, and the lines that decide a match.
//!
//! Cells are numbered 0 to 8, row by row: cell `3 * row + col`. A cell holds
//! the identifier of the participant that occupies it, or 0 while it is
//! empty.
//!
//! A line is a column, a row or a diagonal. The eight lines are examined in
//! a fixed order: column 0, row 0, column 1, row 1, column 2, row 2, the
//! diagonal from the top left, the diagonal from the top right. Where two
//! participants each hold a line, the line examined first decides.

use vstd::prelude::*;

verus! {

/// The number of cells.
pub const CELLS: usize = 9;

/// The number of lines.
pub const LINES: usize = 8;

/// Nine cells, each empty or occupied by participant 1 or 2.
pub open spec fn valid_board(board: Seq<u8>) -> bool {
    &&& board.len() == CELLS
    &&& forall|i: int| 0 <= i < CELLS ==> board[i] <= 2
}

/// The board on which no move has been made.
pub open spec fn empty_board() -> Seq<u8> {
    Seq::new(CELLS as nat, |i: int| 0u8)
}

/// The cells of each line, in the order in which the lines are examined.
pub open spec fn lines() -> Seq<(int, int, int)> {
    seq![
        (0, 3, 6),
        (0, 1, 2),
        (1, 4, 7),
        (3, 4, 5),
        (2, 5, 8),
        (6, 7, 8),
        (0, 4, 8),
        (2, 4, 6),
    ]
}

/// The participant that occupies all three cells of line `k`, or 0 if no
/// participant does.
pub open spec fn line_owner(board: Seq<u8>, k: int) -> u8 {
    let (x, y, z) = lines()[k];
    if board[x] == board[y] && board[y] == board[z] {
        board[x]
    } else {
        0
    }
}

/// Participant `id` holds at least one complete line.
pub open spec fn owns_a_line(board: Seq<u8>, id: u8) -> bool {
    exists|k: int| 0 <= k < LINES && #[trigger] line_owner(board, k) == id
}

/// The owner of the first complete line among the lines `k`, `k + 1`, ...,
/// or 0 if none of them is complete.
pub open spec fn first_owner_from(board: Seq<u8>, k: int) -> u8
    decreases LINES - k,
{
    if k < 0 || k >= LINES {
        0
    } else if line_owner(board, k) != 0 {
        line_owner(board, k)
    } else {
        first_owner_from(board, k + 1)
    }
}

/// The participant that has won on this board: the owner of the first
/// complete line in the order of examination, or 0 if no line is complete.
pub open spec fn line_winner(board: Seq<u8>) -> u8 {
    first_owner_from(board, 0)
}

/// No cell is empty.
pub open spec fn is_full(board: Seq<u8>) -> bool {
    forall|i: int| 0 <= i < board.len() ==> board[i] != 0
}

/// The match on this board is over: somebody has won, or no cell is left.
pub open spec fn is_over(board: Seq<u8>) -> bool {
    line_winner(board) != 0 || is_full(board)
}

/// The three cells of line `k`.
pub fn line_cells(k: usize) -> (cells: (usize, usize, usize))
    requires
        k < LINES,
    ensures
        (cells.0 as int, cells.1 as int, cells.2 as int) == lines()[k as int],
        cells.0 < CELLS,
        cells.1 < CELLS,
        cells.2 < CELLS,
{
    if k == 0 {
        (0, 3, 6)
    } else if k == 1 {
        (0, 1, 2)
    } else if k == 2 {
        (1, 4, 7)
    } else if k == 3 {
        (3, 4, 5)
    } else if k == 4 {
        (2, 5, 8)
    } else if k == 5 {
        (6, 7, 8)
    } else if k == 6 {
        (0, 4, 8)
    } else {
        (2, 4, 6)
    }
}

/// The participant that holds line `k` of `board`, or 0.
pub fn owner_of_line(board: &Vec<u8>, k: usize) -> (owner: u8)
    requires
        board@.len() == CELLS,
        k < LINES,
    ensures
        owner == line_owner(board@, k as int),
{
    let (x, y, z) = line_cells(k);
    if board[x] == board[y] && board[y] == board[z] {
        board[x]
    } else {
        0
    }
}

/// Every line has three distinct cells on the board.
pub proof fn lemma_lines_on_board(k: int)
    requires
        0 <= k < LINES,
    ensures
        0 <= lines()[k].0 < lines()[k].1 < lines()[k].2 < CELLS,
{
}

/// The winner is the owner of line `k` if that line is complete and none of
/// the lines examined before it from `from` on is.
pub proof fn lemma_first_owner(board: Seq<u8>, from: int, k: int)
    requires
        0 <= from <= k < LINES,
        line_owner(board, k) != 0,
        forall|j: int| from <= j < k ==> line_owner(board, j) == 0,
    ensures
        first_owner_from(board, from) == line_owner(board, k),
    decreases k - from,
{
    if from < k {
        lemma_first_owner(board, from + 1, k);
    }
}

/// No participant has won from line `from` on if none of those lines is
/// complete.
pub proof fn lemma_no_owner(board: Seq<u8>, from: int)
    requires
        0 <= from <= LINES,
        forall|j: int| from <= j < LINES ==> line_owner(board, j) == 0,
    ensures
        first_owner_from(board, from) == 0,
    decreases LINES - from,
{
    if from < LINES {
        lemma_no_owner(board, from + 1);
    }
}

} // verus!
