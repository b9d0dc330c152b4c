//! Rows, columns, coordinates and moves on the 8x8 board.
//!
//! Rows are numbered from the side farthest from White (index 0 is rank 8)
//! to White's home rank (index 7 is rank 1). Columns run from A (index 0)
//! to H (index 7).

use vstd::prelude::*;

verus! {

#[derive(Debug, Copy, Clone, Eq, PartialEq, Structural)]
pub enum RowIndex {
    _8,
    _7,
    _6,
    _5,
    _4,
    _3,
    _2,
    _1,
}

#[derive(Debug, Copy, Clone, Eq, PartialEq, Structural)]
pub enum ColumnIndex {
    A,
    B,
    C,
    D,
    E,
    F,
    G,
    H,
}

impl RowIndex {
    /// Position of this row in board order: rank 8 is 0, rank 1 is 7.
    pub open spec fn idx(self) -> int {
        match self {
            RowIndex::_8 => 0,
            RowIndex::_7 => 1,
            RowIndex::_6 => 2,
            RowIndex::_5 => 3,
            RowIndex::_4 => 4,
            RowIndex::_3 => 5,
            RowIndex::_2 => 6,
            RowIndex::_1 => 7,
        }
    }

    pub fn index(self) -> (i: usize)
        ensures
            i == self.idx(),
    {
        match self {
            RowIndex::_8 => 0,
            RowIndex::_7 => 1,
            RowIndex::_6 => 2,
            RowIndex::_5 => 3,
            RowIndex::_4 => 4,
            RowIndex::_3 => 5,
            RowIndex::_2 => 6,
            RowIndex::_1 => 7,
        }
    }

    pub fn from_index(i: usize) -> (r: RowIndex)
        requires
            i < 8,
        ensures
            r == row_of(i as int),
    {
        if i == 0 {
            RowIndex::_8
        } else if i == 1 {
            RowIndex::_7
        } else if i == 2 {
            RowIndex::_6
        } else if i == 3 {
            RowIndex::_5
        } else if i == 4 {
            RowIndex::_4
        } else if i == 5 {
            RowIndex::_3
        } else if i == 6 {
            RowIndex::_2
        } else {
            RowIndex::_1
        }
    }

    /// All rows in board order, rank 8 first.
    pub fn get_rows() -> (r: Vec<RowIndex>)
        ensures
            r@.len() == 8,
            forall|i: int| 0 <= i < 8 ==> r@[i] == row_of(i),
    {
        let mut v: Vec<RowIndex> = Vec::new();
        v.push(RowIndex::_8);
        v.push(RowIndex::_7);
        v.push(RowIndex::_6);
        v.push(RowIndex::_5);
        v.push(RowIndex::_4);
        v.push(RowIndex::_3);
        v.push(RowIndex::_2);
        v.push(RowIndex::_1);
        v
    }
}

/// The row whose board-order position is `i`; total, clamping out-of-range
/// arguments to rank 1.
pub open spec fn row_of(i: int) -> RowIndex {
    if i == 0 {
        RowIndex::_8
    } else if i == 1 {
        RowIndex::_7
    } else if i == 2 {
        RowIndex::_6
    } else if i == 3 {
        RowIndex::_5
    } else if i == 4 {
        RowIndex::_4
    } else if i == 5 {
        RowIndex::_3
    } else if i == 6 {
        RowIndex::_2
    } else {
        RowIndex::_1
    }
}

/// The column whose position is `i`; total, clamping out-of-range arguments
/// to column H.
pub open spec fn col_of(i: int) -> ColumnIndex {
    if i == 0 {
        ColumnIndex::A
    } else if i == 1 {
        ColumnIndex::B
    } else if i == 2 {
        ColumnIndex::C
    } else if i == 3 {
        ColumnIndex::D
    } else if i == 4 {
        ColumnIndex::E
    } else if i == 5 {
        ColumnIndex::F
    } else if i == 6 {
        ColumnIndex::G
    } else {
        ColumnIndex::H
    }
}

pub broadcast proof fn lemma_row_of_idx(r: RowIndex)
    ensures
        #[trigger] row_of(r.idx()) == r,
{
}

pub broadcast proof fn lemma_col_of_idx(c: ColumnIndex)
    ensures
        #[trigger] col_of(c.idx()) == c,
{
}

impl ColumnIndex {
    /// Position of this column in board order: A is 0, H is 7.
    pub open spec fn idx(self) -> int {
        match self {
            ColumnIndex::A => 0,
            ColumnIndex::B => 1,
            ColumnIndex::C => 2,
            ColumnIndex::D => 3,
            ColumnIndex::E => 4,
            ColumnIndex::F => 5,
            ColumnIndex::G => 6,
            ColumnIndex::H => 7,
        }
    }

    pub fn index(self) -> (i: usize)
        ensures
            i == self.idx(),
    {
        match self {
            ColumnIndex::A => 0,
            ColumnIndex::B => 1,
            ColumnIndex::C => 2,
            ColumnIndex::D => 3,
            ColumnIndex::E => 4,
            ColumnIndex::F => 5,
            ColumnIndex::G => 6,
            ColumnIndex::H => 7,
        }
    }

    pub fn from_index(i: usize) -> (r: ColumnIndex)
        requires
            i < 8,
        ensures
            r == col_of(i as int),
    {
        if i == 0 {
            ColumnIndex::A
        } else if i == 1 {
            ColumnIndex::B
        } else if i == 2 {
            ColumnIndex::C
        } else if i == 3 {
            ColumnIndex::D
        } else if i == 4 {
            ColumnIndex::E
        } else if i == 5 {
            ColumnIndex::F
        } else if i == 6 {
            ColumnIndex::G
        } else {
            ColumnIndex::H
        }
    }

    /// All columns in board order, A first.
    pub fn get_columns() -> (r: Vec<ColumnIndex>)
        ensures
            r@.len() == 8,
            forall|i: int| 0 <= i < 8 ==> r@[i] == col_of(i),
    {
        let mut v: Vec<ColumnIndex> = Vec::new();
        v.push(ColumnIndex::A);
        v.push(ColumnIndex::B);
        v.push(ColumnIndex::C);
        v.push(ColumnIndex::D);
        v.push(ColumnIndex::E);
        v.push(ColumnIndex::F);
        v.push(ColumnIndex::G);
        v.push(ColumnIndex::H);
        v
    }
}

/// A square of the board.
#[derive(Debug, Copy, Clone, Eq, PartialEq, Structural)]
pub struct Coordinate {
    pub row: RowIndex,
    pub column: ColumnIndex,
}

/// A requested move: a pair of squares. By itself it does not say what
/// happened; the rules turn it into a move record.
#[derive(Debug, Copy, Clone, Eq, PartialEq, Structural)]
pub struct Move {
    pub from: Coordinate,
    pub to: Coordinate,
}

impl Coordinate {
    /// Position of this square in board order: row-major, rank 8 column A
    /// is 0, rank 1 column H is 63.
    pub open spec fn idx(self) -> int {
        self.row.idx() * 8 + self.column.idx()
    }

    pub fn index(self) -> (i: usize)
        ensures
            i == self.idx(),
            i < 64,
    {
        self.row.index() * 8 + self.column.index()
    }
}

/// The square whose board-order position is `i`.
pub open spec fn square_of(i: int) -> Coordinate {
    Coordinate { row: row_of(i / 8), column: col_of(i % 8) }
}

pub broadcast proof fn lemma_square_of_idx(c: Coordinate)
    ensures
        #[trigger] square_of(c.idx()) == c,
{
    let i = c.idx();
    assert(i / 8 == c.row.idx() && i % 8 == c.column.idx()) by (nonlinear_arith)
        requires
            i == c.row.idx() * 8 + c.column.idx(),
            0 <= c.row.idx() < 8,
            0 <= c.column.idx() < 8,
    ;
}

pub broadcast proof fn lemma_idx_of_square(i: int)
    requires
        0 <= i < 64,
    ensures
        (#[trigger] square_of(i)).idx() == i,
{
    assert((i / 8) * 8 + i % 8 == i) by (nonlinear_arith);
}

pub broadcast proof fn lemma_row_idx_inj(a: RowIndex, b: RowIndex)
    ensures
        #![trigger a.idx(), b.idx()]
        (a.idx() == b.idx()) == (a == b),
{
}

pub broadcast proof fn lemma_col_idx_inj(a: ColumnIndex, b: ColumnIndex)
    ensures
        #![trigger a.idx(), b.idx()]
        (a.idx() == b.idx()) == (a == b),
{
}

pub broadcast proof fn lemma_idx_inj(a: Coordinate, b: Coordinate)
    ensures
        #![trigger a.idx(), b.idx()]
        (a.idx() == b.idx()) == (a == b),
{
    if a.idx() == b.idx() {
        lemma_square_of_idx(a);
        lemma_square_of_idx(b);
    }
}

/// The sign of an integer difference: -1, 0 or 1.
pub open spec fn sgn(d: int) -> int {
    if d > 0 {
        1
    } else if d < 0 {
        -1
    } else {
        0
    }
}

pub open spec fn abs(d: int) -> int {
    if d < 0 {
        -d
    } else {
        d
    }
}

impl Move {
    pub open spec fn d_row(self) -> int {
        self.to.row.idx() - self.from.row.idx()
    }

    pub open spec fn d_column(self) -> int {
        self.to.column.idx() - self.from.column.idx()
    }

    /// The move runs along a rank, a file or a diagonal and is not a stay
    /// on one square.
    pub open spec fn is_aligned(self) -> bool {
        &&& !(self.d_row() == 0 && self.d_column() == 0)
        &&& (self.d_row() == 0 || self.d_column() == 0 || abs(self.d_row()) == abs(self.d_column()))
    }

    /// Number of king steps from `from` to `to` along the line.
    pub open spec fn step_count(self) -> int {
        if abs(self.d_row()) > abs(self.d_column()) {
            abs(self.d_row())
        } else {
            abs(self.d_column())
        }
    }

    /// The squares strictly between `from` and `to`, in order from `from`
    /// toward `to`; empty for non-aligned or adjacent coordinates.
    pub open spec fn between(self) -> Seq<Coordinate> {
        if self.is_aligned() {
            Seq::new(
                (self.step_count() - 1) as nat,
                |i: int|
                    Coordinate {
                        row: row_of(self.from.row.idx() + (i + 1) * sgn(self.d_row())),
                        column: col_of(self.from.column.idx() + (i + 1) * sgn(self.d_column())),
                    },
            )
        } else {
            Seq::empty()
        }
    }

    /// The coordinates strictly between `self.from` and `self.to`, walking
    /// from `from` toward `to`. For coordinates that are not on a common
    /// rank, file or diagonal, and for adjacent ones, the result is empty.
    pub fn squares_between(&self) -> (r: Vec<Coordinate>)
        ensures
            r@ == self.between(),
    {
        let m = *self;
        let fr = m.from.row.index();
        let fc = m.from.column.index();
        let tr = m.to.row.index();
        let tc = m.to.column.index();
        let abs_dr: usize = if tr >= fr {
            tr - fr
        } else {
            fr - tr
        };
        let abs_dc: usize = if tc >= fc {
            tc - fc
        } else {
            fc - tc
        };
        let mut result: Vec<Coordinate> = Vec::new();
        let aligned = !(abs_dr == 0 && abs_dc == 0) && (abs_dr == 0 || abs_dc == 0 || abs_dr
            == abs_dc);
        if !aligned {
            assert(!m.is_aligned());
            assert(result@ =~= m.between());
            return result;
        }
        let steps: usize = if abs_dr > abs_dc {
            abs_dr
        } else {
            abs_dc
        };
        assert(m.is_aligned());
        assert(steps == m.step_count());
        let ghost sr = sgn(m.d_row());
        let ghost sc = sgn(m.d_column());
        let mut cur_r = fr;
        let mut cur_c = fc;
        let mut k: usize = 1;
        while k < steps
            invariant
                1 <= k <= steps,
                steps == m.step_count(),
                m.is_aligned(),
                sr == sgn(m.d_row()),
                sc == sgn(m.d_column()),
                fr == m.from.row.idx(),
                fc == m.from.column.idx(),
                tr == m.to.row.idx(),
                tc == m.to.column.idx(),
                cur_r == fr + (k - 1) * sr,
                cur_c == fc + (k - 1) * sc,
                0 <= cur_r < 8,
                0 <= cur_c < 8,
                result@.len() == k - 1,
                forall|i: int| 0 <= i < k - 1 ==> result@[i] == m.between()[i],
            decreases steps - k,
        {
            proof {
                lemma_step_bounds(m, k as int);
                assert((k - 1) * sr + sr == k * sr) by (nonlinear_arith);
                assert((k - 1) * sc + sc == k * sc) by (nonlinear_arith);
            }
            if tr > fr {
                cur_r = cur_r + 1;
            } else if tr < fr {
                cur_r = cur_r - 1;
            }
            if tc > fc {
                cur_c = cur_c + 1;
            } else if tc < fc {
                cur_c = cur_c - 1;
            }
            let c = Coordinate { row: RowIndex::from_index(cur_r), column: ColumnIndex::from_index(
                cur_c,
            ) };
            assert(c == m.between()[k - 1]);
            result.push(c);
            k = k + 1;
        }
        assert(result@ =~= m.between());
        result
    }
}

/// Every intermediate point of an aligned walk stays on the board.
proof fn lemma_step_bounds(m: Move, k: int)
    requires
        m.is_aligned(),
        1 <= k <= m.step_count(),
    ensures
        0 <= m.from.row.idx() + k * sgn(m.d_row()) < 8,
        0 <= m.from.column.idx() + k * sgn(m.d_column()) < 8,
        m.step_count() * sgn(m.d_row()) == m.d_row(),
        m.step_count() * sgn(m.d_column()) == m.d_column(),
{
    let fr = m.from.row.idx();
    let fc = m.from.column.idx();
    let dr = m.d_row();
    let dc = m.d_column();
    let s = m.step_count();
    assert(s * sgn(dr) == dr && s * sgn(dc) == dc) by (nonlinear_arith)
        requires
            s == (if abs(dr) > abs(dc) {
                abs(dr)
            } else {
                abs(dc)
            }),
            dr == 0 || dc == 0 || abs(dr) == abs(dc),
            !(dr == 0 && dc == 0),
    ;
    assert(0 <= fr + k * sgn(dr) < 8) by (nonlinear_arith)
        requires
            0 <= fr < 8,
            0 <= fr + dr < 8,
            1 <= k <= s,
            s * sgn(dr) == dr,
            s >= 1,
    ;
    assert(0 <= fc + k * sgn(dc) < 8) by (nonlinear_arith)
        requires
            0 <= fc < 8,
            0 <= fc + dc < 8,
            1 <= k <= s,
            s * sgn(dc) == dc,
            s >= 1,
    ;
}

} // verus!
