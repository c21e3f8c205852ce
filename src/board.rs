use vstd::prelude::*;

verus! {

/// The content of one cell of the board.
#[derive(Clone, Copy, Debug, PartialEq, Eq, Structural)]
pub enum Square {
    X,
    O,
    Empty,
}

/// Returns a square value from the squares vector by treating it as a row-major `n` by `n` table.
pub fn get_square_flatten_index(squares: &Vec<Square>, n: usize, row: usize, col: usize) -> (r: &Square)
    requires
        squares@.len() == n * n,
        row < n,
        col < n,
    ensures
        *r == squares@[row * n + col],
{
    let len = squares.len();
    proof {
        assert(row * n + col < n * n && row * n <= row * n + col) by (nonlinear_arith)
            requires row < n, col < n;
    }
    &squares[row * n + col]
}

} // verus!

verus! {

/// One family of lines through the board; a line is a selector together with a constant.
///
/// Cell `i` of the line (for `i` in `0..n`) is:
/// - `Row`: row `constant`, column `i`;
/// - `Column`: row `i`, column `constant`;
/// - `Diagonal`: row `i`, column `i`;
/// - `AntiDiagonal`: row `n - 1 - i`, column `i`.
#[derive(Clone, Copy, Debug, PartialEq, Eq, Structural)]
pub enum LineSelector {
    Row,
    Column,
    Diagonal,
    AntiDiagonal,
}

impl LineSelector {
    /// The (row, column) of cell `i` of the line.
    pub open spec fn cell_spec(self, n: int, constant: int, i: int) -> (int, int) {
        match self {
            LineSelector::Row => (constant, i),
            LineSelector::Column => (i, constant),
            LineSelector::Diagonal => (i, i),
            LineSelector::AntiDiagonal => (n - 1 - i, i),
        }
    }

    /// The (row, column) of cell `i` of the line.
    pub fn cell(self, n: usize, constant: usize, i: usize) -> (r: (usize, usize))
        requires
            constant < n,
            i < n,
        ensures
            r.0 as int == self.cell_spec(n as int, constant as int, i as int).0,
            r.1 as int == self.cell_spec(n as int, constant as int, i as int).1,
            r.0 < n,
            r.1 < n,
    {
        match self {
            LineSelector::Row => (constant, i),
            LineSelector::Column => (i, constant),
            LineSelector::Diagonal => (i, i),
            LineSelector::AntiDiagonal => (n - 1 - i, i),
        }
    }
}

/// The position in the row-major board of cell `i` of a line.
pub open spec fn line_index(n: int, sel: LineSelector, constant: int, i: int) -> int {
    sel.cell_spec(n, constant, i).0 * n + sel.cell_spec(n, constant, i).1
}

/// What cell `i` of a line holds.
pub open spec fn line_square(s: Seq<Square>, n: int, sel: LineSelector, constant: int, i: int) -> Square {
    s[line_index(n, sel, constant, i)]
}

/// Every cell of the line holds `p`.
pub open spec fn line_filled_with(s: Seq<Square>, n: int, sel: LineSelector, constant: int, p: Square) -> bool {
    forall|i: int| 0 <= i < n ==> #[trigger] line_square(s, n, sel, constant, i) == p
}

/// The line is won: all of its cells hold the same mark, which is not `Empty`.
pub open spec fn line_won(s: Seq<Square>, n: int, sel: LineSelector, constant: int) -> bool {
    &&& line_square(s, n, sel, constant, 0) != Square::Empty
    &&& line_filled_with(s, n, sel, constant, line_square(s, n, sel, constant, 0))
}

/// The winner of one line, if any.
pub open spec fn line_winner_spec(s: Seq<Square>, n: int, sel: LineSelector, constant: int) -> Option<Square> {
    if line_won(s, n, sel, constant) {
        Some(line_square(s, n, sel, constant, 0))
    } else {
        None
    }
}

/// The board is a valid `n` by `n` board.
pub open spec fn board_shape(s: Seq<Square>, n: int) -> bool {
    n >= 1 && s.len() == n * n
}

/// Every position of every line of an `n` by `n` board lies on the board.
pub proof fn lemma_line_index_in_bounds(n: int, sel: LineSelector, constant: int, i: int)
    requires
        n >= 1,
        0 <= constant < n,
        0 <= i < n,
    ensures
        0 <= line_index(n, sel, constant, i) < n * n,
{
    let (row, col) = sel.cell_spec(n, constant, i);
    assert(0 <= row < n && 0 <= col < n);
    assert(0 <= row * n + col < n * n) by (nonlinear_arith)
        requires 0 <= row < n, 0 <= col < n;
}

/// Returns the winner of the given line: the mark that fills all of its cells, or `None`.
pub fn line_winner(squares: &Vec<Square>, n: usize, sel: LineSelector, constant: usize) -> (r: Option<Square>)
    requires
        board_shape(squares@, n as int),
        constant < n,
    ensures
        r == line_winner_spec(squares@, n as int, sel, constant as int),
{
    let start = sel.cell(n, constant, 0);
    let first = *get_square_flatten_index(squares, n, start.0, start.1);
    if first == Square::Empty {
        return None;
    }
    let mut i: usize = 1;
    while i < n
        invariant
            board_shape(squares@, n as int),
            constant < n,
            1 <= i <= n,
            first == line_square(squares@, n as int, sel, constant as int, 0),
            forall|j: int| 0 <= j < i ==> #[trigger] line_square(squares@, n as int, sel, constant as int, j) == first,
        decreases n - i,
    {
        let cell = sel.cell(n, constant, i);
        if *get_square_flatten_index(squares, n, cell.0, cell.1) != first {
            assert(line_square(squares@, n as int, sel, constant as int, i as int) != first);
            return None;
        }
        i = i + 1;
    }
    Some(first)
}

} // verus!

verus! {

/// The `k`-th of the `2n + 2` lines in scan order: rows from the top, then columns from the
/// left, then the main diagonal, then the anti-diagonal.
pub open spec fn line_at(n: int, k: int) -> (LineSelector, int) {
    if k < n {
        (LineSelector::Row, k)
    } else if k < 2 * n {
        (LineSelector::Column, k - n)
    } else if k == 2 * n {
        (LineSelector::Diagonal, 0)
    } else {
        (LineSelector::AntiDiagonal, 0)
    }
}

/// The number of lines of an `n` by `n` board.
pub open spec fn line_count(n: int) -> int {
    2 * n + 2
}

/// Line `k` in scan order is won.
pub open spec fn line_k_won(s: Seq<Square>, n: int, k: int) -> bool {
    line_won(s, n, line_at(n, k).0, line_at(n, k).1)
}

/// The mark in the first cell of line `k` in scan order.
pub open spec fn line_k_mark(s: Seq<Square>, n: int, k: int) -> Square {
    line_square(s, n, line_at(n, k).0, line_at(n, k).1, 0)
}

/// The winner of the first won line at or after line `k` in scan order.
pub open spec fn first_winner_from(s: Seq<Square>, n: int, k: int) -> Option<Square>
    decreases line_count(n) - k,
{
    if k < 0 || k >= line_count(n) {
        None
    } else if line_k_won(s, n, k) {
        Some(line_k_mark(s, n, k))
    } else {
        first_winner_from(s, n, k + 1)
    }
}

/// The winner of the board: the mark of the first won line in scan order, or `None`.
pub open spec fn winner_of(s: Seq<Square>, n: int) -> Option<Square> {
    first_winner_from(s, n, 0)
}

/// Every cell of the board holds a mark.
pub open spec fn board_full(s: Seq<Square>) -> bool {
    forall|i: int| 0 <= i < s.len() ==> #[trigger] s[i] != Square::Empty
}

/// The result of evaluating a board.
#[derive(Clone, Copy, Debug, PartialEq, Eq, Structural)]
pub enum Outcome {
    /// No line is won and some cell is still empty.
    InProgress,
    /// The given mark fills a line.
    Win(Square),
    /// Every cell holds a mark and no line is won.
    Draw,
}

/// The outcome of a board: its winner if there is one, else a draw when it is full.
pub open spec fn outcome_of(s: Seq<Square>, n: int) -> Outcome {
    match winner_of(s, n) {
        Some(p) => Outcome::Win(p),
        None => if board_full(s) {
            Outcome::Draw
        } else {
            Outcome::InProgress
        },
    }
}

/// Returns the winner of the board, or `None` if nobody has won yet.
///
/// All `2n + 2` lines are scanned in the order of `line_at`; the first won line decides.
pub fn get_winner(squares: &Vec<Square>, n: usize) -> (r: Option<Square>)
    requires
        board_shape(squares@, n as int),
    ensures
        r == winner_of(squares@, n as int),
{
    let ghost s = squares@;
    let ghost ni = n as int;
    let mut i: usize = 0;
    while i < n
        invariant
            board_shape(s, ni),
            s == squares@,
            ni == n,
            i <= n,
            winner_of(s, ni) == first_winner_from(s, ni, i as int),
        decreases n - i,
    {
        if let Some(winner) = line_winner(squares, n, LineSelector::Row, i) {
            return Some(winner);
        }
        i = i + 1;
    }
    let mut j: usize = 0;
    while j < n
        invariant
            board_shape(s, ni),
            s == squares@,
            ni == n,
            j <= n,
            winner_of(s, ni) == first_winner_from(s, ni, ni + j),
        decreases n - j,
    {
        if let Some(winner) = line_winner(squares, n, LineSelector::Column, j) {
            return Some(winner);
        }
        j = j + 1;
    }
    if let Some(winner) = line_winner(squares, n, LineSelector::Diagonal, 0) {
        return Some(winner);
    }
    assert(winner_of(s, ni) == first_winner_from(s, ni, 2 * ni + 1));
    if let Some(winner) = line_winner(squares, n, LineSelector::AntiDiagonal, 0) {
        return Some(winner);
    }
    assert(first_winner_from(s, ni, 2 * ni + 2) == None::<Square>);
    None
}

/// Returns true when every cell of the board holds a mark.
pub fn is_full(squares: &Vec<Square>) -> (r: bool)
    ensures
        r == board_full(squares@),
{
    let mut i: usize = 0;
    while i < squares.len()
        invariant
            i <= squares@.len(),
            forall|j: int| 0 <= j < i ==> #[trigger] squares@[j] != Square::Empty,
        decreases squares@.len() - i,
    {
        if squares[i] == Square::Empty {
            return false;
        }
        i = i + 1;
    }
    true
}

/// Evaluates the board: the winner if a line is won, else a draw when every cell is taken,
/// else the game goes on.
pub fn evaluate_squares(squares: &Vec<Square>, n: usize) -> (r: Outcome)
    requires
        board_shape(squares@, n as int),
    ensures
        r == outcome_of(squares@, n as int),
{
    match get_winner(squares, n) {
        Some(p) => Outcome::Win(p),
        None => if is_full(squares) {
            Outcome::Draw
        } else {
            Outcome::InProgress
        },
    }
}

} // verus!

verus! {

/// Lines in scan order from `k` on: the first winner found is the mark of a won line, and when
/// none is found no line from `k` on is won.
proof fn lemma_first_winner_from(s: Seq<Square>, n: int, k: int)
    requires
        0 <= k,
    ensures
        first_winner_from(s, n, k) is None ==> forall|j: int|
            k <= j < line_count(n) ==> !#[trigger] line_k_won(s, n, j),
        first_winner_from(s, n, k) matches Some(q) ==> exists|j: int|
            k <= j < line_count(n) && #[trigger] line_k_won(s, n, j) && line_k_mark(s, n, j) == q,
    decreases line_count(n) - k,
{
    if k < line_count(n) && !line_k_won(s, n, k) {
        lemma_first_winner_from(s, n, k + 1);
    }
}

/// On a board where no two won lines carry different marks, the outcome is a win for the
/// mark `p` exactly when some row, column or diagonal is filled with `p`.
pub proof fn lemma_win_iff_line_filled(s: Seq<Square>, n: int, p: Square)
    requires
        board_shape(s, n),
        p != Square::Empty,
        forall|k1: int, k2: int|
            0 <= k1 < line_count(n) && 0 <= k2 < line_count(n) && #[trigger] line_k_won(s, n, k1)
                && #[trigger] line_k_won(s, n, k2) ==> line_k_mark(s, n, k1) == line_k_mark(s, n, k2),
    ensures
        outcome_of(s, n) == Outcome::Win(p) <==> exists|k: int|
            0 <= k < line_count(n) && #[trigger] line_filled_with(s, n, line_at(n, k).0, line_at(n, k).1, p),
{
    lemma_first_winner_from(s, n, 0);
    if outcome_of(s, n) == Outcome::Win(p) {
        let k = choose|j: int| 0 <= j < line_count(n) && #[trigger] line_k_won(s, n, j) && line_k_mark(s, n, j) == p;
        assert(line_filled_with(s, n, line_at(n, k).0, line_at(n, k).1, p));
    }
    if exists|k: int| 0 <= k < line_count(n) && #[trigger] line_filled_with(s, n, line_at(n, k).0, line_at(n, k).1, p) {
        let k = choose|k: int| 0 <= k < line_count(n) && #[trigger] line_filled_with(s, n, line_at(n, k).0, line_at(n, k).1, p);
        assert(line_square(s, n, line_at(n, k).0, line_at(n, k).1, 0) == p);
        assert(line_k_won(s, n, k));
        if let Some(q) = winner_of(s, n) {
            let j = choose|j: int| 0 <= j < line_count(n) && #[trigger] line_k_won(s, n, j) && line_k_mark(s, n, j) == q;
            assert(line_k_mark(s, n, j) == line_k_mark(s, n, k));
        }
    }
}

} // verus!
