use vstd::prelude::*;
use vstd::array::spec_array_update;

verus! {

/// One of the two players.
#[derive(Clone, Copy, Debug, PartialEq, Eq, Structural)]
pub enum Player {
    X,
    O,
}

/// One cell of the board: empty, or holding a player's mark.
#[derive(Clone, Copy, Debug, PartialEq, Eq, Structural)]
pub enum Spot {
    Player(Player),
    Empty,
}

/// The grid, indexed by row and then by column.
pub type Board = [[Spot; 3]; 3];

impl Player {
    /// The player who is not `self`.
    pub open spec fn opponent(self) -> Player {
        match self {
            Player::X => Player::O,
            Player::O => Player::X,
        }
    }
}

/// The cell at `(row, col)`.
pub open spec fn cell(b: Board, row: int, col: int) -> Spot {
    b[row][col]
}

/// A coordinate that addresses a cell of the grid.
pub open spec fn in_range(pos: (usize, usize)) -> bool {
    pos.0 < 3 && pos.1 < 3
}

/// The board `b` with the cell at `pos` set to `s`, all other cells kept.
pub open spec fn with_cell(b: Board, pos: (usize, usize), s: Spot) -> Board {
    spec_array_update(b, pos.0 as int, spec_array_update(b[pos.0 as int], pos.1 as int, s))
}

/// A move changes one cell: on `with_cell(b, pos, s)` the addressed cell
/// holds `s` and every other cell holds what it held on `b`.
pub proof fn lemma_with_cell_changes_one_cell(b: Board, pos: (usize, usize), s: Spot)
    requires
        in_range(pos),
    ensures
        forall|r: int, c: int| #![trigger cell(with_cell(b, pos, s), r, c)]
            0 <= r < 3 && 0 <= c < 3 ==> cell(with_cell(b, pos, s), r, c) == if r == pos.0 && c == pos.1 {
                s
            } else {
                cell(b, r, c)
            },
{
}

/// The board in which no cell is taken.
pub open spec fn is_empty_board(b: Board) -> bool {
    forall|r: int, c: int| 0 <= r < 3 && 0 <= c < 3 ==> #[trigger] b[r][c] == Spot::Empty
}

/// The number of lines that win: three rows, three columns, two diagonals.
pub const LINE_COUNT: usize = 8;

/// The `k`-th cell (`0 <= k < 3`) of line `t`, in the order rows top to
/// bottom, columns left to right, the main diagonal, the anti-diagonal.
pub open spec fn line_cell(t: int, k: int) -> (int, int) {
    if t < 3 {
        (t, k)
    } else if t < 6 {
        (k, t - 3)
    } else if t == 6 {
        (k, k)
    } else {
        (k, 2 - k)
    }
}

/// The spot of the `k`-th cell of line `t`.
pub open spec fn line_spot(b: Board, t: int, k: int) -> Spot {
    cell(b, line_cell(t, k).0, line_cell(t, k).1)
}

/// Whether all three cells of line `t` hold `p`'s mark.
pub open spec fn line_owned(b: Board, t: int, p: Player) -> bool {
    &&& line_spot(b, t, 0) == Spot::Player(p)
    &&& line_spot(b, t, 1) == Spot::Player(p)
    &&& line_spot(b, t, 2) == Spot::Player(p)
}

/// Whether line `t` is filled by one player.
pub open spec fn line_complete(b: Board, t: int) -> bool {
    line_owned(b, t, Player::X) || line_owned(b, t, Player::O)
}

/// The owner of the first complete line among lines `t`, `t + 1`, ..., if any.
pub open spec fn winner_from(b: Board, t: int) -> Option<Player>
    decreases 8 - t,
{
    if t < 0 || t >= 8 {
        None
    } else if line_owned(b, t, Player::X) {
        Some(Player::X)
    } else if line_owned(b, t, Player::O) {
        Some(Player::O)
    } else {
        winner_from(b, t + 1)
    }
}

/// The owner of the first complete line, lines taken in the fixed order.
pub open spec fn winner(b: Board) -> Option<Player> {
    winner_from(b, 0)
}

/// The coordinates of the `k`-th cell of line `t`.
fn line_position(t: usize, k: usize) -> (r: (usize, usize))
    requires
        t < LINE_COUNT,
        k < 3,
    ensures
        r.0 as int == line_cell(t as int, k as int).0,
        r.1 as int == line_cell(t as int, k as int).1,
        in_range(r),
{
    if t < 3 {
        (t, k)
    } else if t < 6 {
        (k, t - 3)
    } else if t == 6 {
        (k, k)
    } else {
        (k, 2 - k)
    }
}

/// Finds a completed line and reports its owner.
///
/// Lines are tried rows top to bottom, then columns left to right, then the
/// main diagonal and the anti-diagonal; the first one whose three cells hold
/// the same mark decides.
pub fn find_winner(board: &Board) -> (r: Option<Player>)
    ensures
        r == winner(*board),
{
    let mut t: usize = 0;
    while t < LINE_COUNT
        invariant
            t <= LINE_COUNT,
            winner(*board) == winner_from(*board, t as int),
        decreases LINE_COUNT - t,
    {
        let a = line_position(t, 0);
        let b = line_position(t, 1);
        let c = line_position(t, 2);
        let first = board[a.0][a.1];
        if first == board[b.0][b.1] && board[b.0][b.1] == board[c.0][c.1] {
            match first {
                Spot::Player(p) => {
                    return Some(p);
                },
                Spot::Empty => {},
            }
        }
        t = t + 1;
    }
    None
}

/// A completed line is reported: when line `t` holds `p`'s mark in all
/// three cells and no other line is complete, the winner is `p`, whatever the
/// other cells hold.
pub proof fn lemma_completed_line_wins(b: Board, t: int, p: Player)
    requires
        0 <= t < 8,
        line_owned(b, t, p),
        forall|u: int| 0 <= u < 8 && u != t ==> !#[trigger] line_complete(b, u),
    ensures
        winner(b) == Some(p),
{
    lemma_winner_from_line(b, 0, t, p);
}

proof fn lemma_winner_from_line(b: Board, from: int, t: int, p: Player)
    requires
        0 <= from <= t < 8,
        line_owned(b, t, p),
        forall|u: int| 0 <= u < 8 && u != t ==> !#[trigger] line_complete(b, u),
    ensures
        winner_from(b, from) == Some(p),
    decreases t - from,
{
    if from < t {
        assert(!line_complete(b, from));
        lemma_winner_from_line(b, from + 1, t, p);
    } else {
        assert(!line_owned(b, t, p.opponent()));
    }
}

/// No winner is made up: a board on which no line is complete has none.
pub proof fn lemma_no_line_no_winner(b: Board)
    requires
        forall|u: int| 0 <= u < 8 ==> !#[trigger] line_complete(b, u),
    ensures
        winner(b) == None::<Player>,
{
    lemma_winner_from_none(b, 0);
}

proof fn lemma_winner_from_none(b: Board, from: int)
    requires
        0 <= from <= 8,
        forall|u: int| 0 <= u < 8 ==> !#[trigger] line_complete(b, u),
    ensures
        winner_from(b, from) == None::<Player>,
    decreases 8 - from,
{
    if from < 8 {
        assert(!line_complete(b, from));
        lemma_winner_from_none(b, from + 1);
    }
}

} // verus!
