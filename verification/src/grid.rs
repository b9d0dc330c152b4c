//! The 8x8 board: a total mapping from coordinate to optional piece.

use vstd::prelude::*;

use itertools::Itertools;

use crate::coordinates::ColumnIndex;
use crate::coordinates::Coordinate;
use crate::coordinates::Move;
use crate::coordinates::RowIndex;
use crate::coordinates::square_of;
use crate::piece::Colour;
use crate::piece::Piece;
use crate::piece::PieceType;

verus! {

pub type Square = Option<Piece>;

/// The board, stored row-major: rank 8 column A first, rank 1 column H
/// last. The view is the sequence of its 64 squares.
#[derive(Debug, PartialEq)]
pub struct Board {
    squares: Vec<Square>,
}

impl View for Board {
    type V = Seq<Square>;

    closed spec fn view(&self) -> Seq<Square> {
        self.squares@
    }
}

/// The piece kind that starts on back-rank column `c`.
pub open spec fn spec_back_rank_kind(c: int) -> PieceType {
    if c == 0 || c == 7 {
        PieceType::Rook
    } else if c == 1 || c == 6 {
        PieceType::Knight
    } else if c == 2 || c == 5 {
        PieceType::Bishop
    } else if c == 3 {
        PieceType::Queen
    } else {
        PieceType::King
    }
}

/// The standard initial content of the square at board-order position `i`.
pub open spec fn initial_square(i: int) -> Square {
    let r = i / 8;
    let c = i % 8;
    if r == 0 {
        Some(Piece { piece_type: spec_back_rank_kind(c), colour: Colour::Black, has_moved: false })
    } else if r == 1 {
        Some(Piece { piece_type: PieceType::Pawn, colour: Colour::Black, has_moved: false })
    } else if r == 6 {
        Some(Piece { piece_type: PieceType::Pawn, colour: Colour::White, has_moved: false })
    } else if r == 7 {
        Some(Piece { piece_type: spec_back_rank_kind(c), colour: Colour::White, has_moved: false })
    } else {
        None
    }
}

/// No piece stands on any square strictly between the ends of `m`.
pub open spec fn path_clear(b: Seq<Square>, m: Move) -> bool {
    forall|i: int| 0 <= i < m.between().len() ==> b[m.between()[i].idx()] is None
}

/// Position of the first occupied square of `m.between()` at or after `i`;
/// the path length when every square from `i` on is empty.
pub open spec fn first_block_at(b: Seq<Square>, m: Move, i: int) -> int
    decreases m.between().len() - i,
    when 0 <= i <= m.between().len()
{
    if i >= m.between().len() {
        i
    } else if b[m.between()[i].idx()] is Some {
        i
    } else {
        first_block_at(b, m, i + 1)
    }
}

fn back_rank_kind(c: usize) -> (k: PieceType)
    requires
        c < 8,
    ensures
        k == spec_back_rank_kind(c as int),
{
    if c == 0 || c == 7 {
        PieceType::Rook
    } else if c == 1 || c == 6 {
        PieceType::Knight
    } else if c == 2 || c == 5 {
        PieceType::Bishop
    } else if c == 3 {
        PieceType::Queen
    } else {
        PieceType::King
    }
}

impl Board {
    pub open spec fn wf(self) -> bool {
        self@.len() == 64
    }

    /// The board of the standard initial position, every piece unmoved.
    pub fn new() -> (b: Board)
        ensures
            b.wf(),
            forall|i: int| 0 <= i < 64 ==> b@[i] == initial_square(i),
    {
        let mut squares: Vec<Square> = Vec::new();
        for i in 0..64usize
            invariant
                squares@.len() == i,
                forall|j: int| 0 <= j < i ==> squares@[j] == initial_square(j),
        {
            let r = i / 8;
            let c = i % 8;
            let sq: Square = if r == 0 {
                Some(Piece { piece_type: back_rank_kind(c), colour: Colour::Black, has_moved: false })
            } else if r == 1 {
                Some(Piece { piece_type: PieceType::Pawn, colour: Colour::Black, has_moved: false })
            } else if r == 6 {
                Some(Piece { piece_type: PieceType::Pawn, colour: Colour::White, has_moved: false })
            } else if r == 7 {
                Some(Piece { piece_type: back_rank_kind(c), colour: Colour::White, has_moved: false })
            } else {
                None
            };
            squares.push(sq);
        }
        Board { squares }
    }

    /// An entirely empty board.
    pub fn empty() -> (b: Board)
        ensures
            b.wf(),
            forall|i: int| 0 <= i < 64 ==> b@[i] is None,
    {
        let mut squares: Vec<Square> = Vec::new();
        for i in 0..64usize
            invariant
                squares@.len() == i,
                forall|j: int| 0 <= j < i ==> squares@[j] is None,
        {
            squares.push(None);
        }
        Board { squares }
    }

    /// A board made of the given 64 squares, in board order.
    pub fn from_squares(squares: Vec<Square>) -> (b: Board)
        requires
            squares@.len() == 64,
        ensures
            b.wf(),
            b@ == squares@,
    {
        Board { squares }
    }

    /// The content of the square at `c`.
    pub fn at(&self, c: Coordinate) -> (s: Square)
        requires
            self.wf(),
        ensures
            s == self@[c.idx()],
    {
        self.squares[c.index()]
    }

    /// Replace the content of the square at `c`.
    pub fn set(&mut self, c: Coordinate, s: Square)
        requires
            old(self).wf(),
        ensures
            final(self).wf(),
            final(self)@ == old(self)@.update(c.idx(), s),
    {
        let i = c.index();
        self.squares[i] = s;
    }
}

impl Default for Board {
    /// An entirely empty board.
    fn default() -> (b: Self)
        ensures
            b.wf(),
            forall|i: int| 0 <= i < 64 ==> b@[i] is None,
    {
        Board::empty()
    }
}

/// Pair every given row with every given column, rows outermost.
///
/// Relies on itertools' `cartesian_product`: it pairs every element of the
/// outer iterator with every element of the inner one, outer order first,
/// restarting the inner iterator for each outer element; the closure only
/// picks the pair apart.
#[verifier::external_body]
fn cartesian(rows: &Vec<RowIndex>, cols: &Vec<ColumnIndex>) -> (r: Vec<Coordinate>)
    requires
        rows@.len() == 8,
        cols@.len() == 8,
    ensures
        r@.len() == 64,
        forall|i: int|
            0 <= i < 64 ==> r@[i] == (Coordinate { row: rows@[i / 8], column: cols@[i % 8] }),
{
    rows.iter().cartesian_product(cols.iter()).map(
        |rc: (&RowIndex, &ColumnIndex)| Coordinate { row: *rc.0, column: *rc.1 },
    ).collect()
}

/// All 64 squares of the board in row-major order, rank 8 first and
/// column A first within each rank.
pub fn board_iterator() -> (r: Vec<Coordinate>)
    ensures
        r@.len() == 64,
        forall|i: int| 0 <= i < 64 ==> r@[i] == square_of(i),
{
    let rows = RowIndex::get_rows();
    let cols = ColumnIndex::get_columns();
    let r = cartesian(&rows, &cols);
    proof {
        assert forall|i: int| 0 <= i < 64 implies r@[i] == square_of(i) by {
            assert(rows@[i / 8] == crate::coordinates::row_of(i / 8));
            assert(cols@[i % 8] == crate::coordinates::col_of(i % 8));
        }
    }
    r
}

/// Scan the squares strictly between the ends of `m`; succeed when every
/// one is empty, otherwise report the first occupant and its square.
pub fn has_no_pieces_between(board: &Board, m: &Move) -> (r: Result<(), (Piece, Coordinate)>)
    requires
        board.wf(),
    ensures
        match r {
            Ok(()) => path_clear(board@, *m) && first_block_at(board@, *m, 0) == m.between().len(),
            Err(pc) => {
                let fb = first_block_at(board@, *m, 0);
                &&& !path_clear(board@, *m)
                &&& 0 <= fb < m.between().len()
                &&& pc.1 == m.between()[fb]
                &&& board@[pc.1.idx()] == Some(pc.0)
            },
        },
{
    let squares = m.squares_between();
    let mut i: usize = 0;
    while i < squares.len()
        invariant
            board.wf(),
            squares@ == m.between(),
            0 <= i <= squares@.len(),
            forall|j: int| 0 <= j < i ==> board@[#[trigger] m.between()[j].idx()] is None,
            first_block_at(board@, *m, 0) == first_block_at(board@, *m, i as int),
        decreases squares@.len() - i,
    {
        let c = squares[i];
        match board.at(c) {
            None => {},
            Some(piece) => {
                assert(first_block_at(board@, *m, i as int) == i);
                assert(!path_clear(board@, *m));
                return Err((piece, c));
            },
        }
        i = i + 1;
    }
    assert(first_block_at(board@, *m, i as int) == m.between().len());
    Ok(())
}

} // verus!
