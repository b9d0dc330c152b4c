//! Move records — the tagged variants that carry enough data to reverse a
//! move — and the history stack of a game.

use vstd::prelude::*;

use crate::coordinates::ColumnIndex;
use crate::coordinates::Coordinate;
use crate::coordinates::Move;
use crate::coordinates::abs;
use crate::coordinates::row_of;
use crate::coordinates::sgn;
use crate::grid::Board;
use crate::grid::Square;
use crate::piece::Colour;
use crate::piece::Piece;
use crate::piece::PieceType;

verus! {

/// What happened on the board for one committed move, with everything
/// needed to undo it.
#[derive(Debug, Copy, Clone, Eq, PartialEq, Structural)]
pub enum MoveRecord {
    SimpleMove {
        /// the move that was made
        m: Move,
        /// true iff this is the first move of this piece
        first_move: bool,
    },
    TakeMove {
        /// the move that was made
        m: Move,
        /// the piece that was taken
        taken: Piece,
        /// for en-passant: may not be the same as m.to
        taken_from: Coordinate,
        /// true iff this is the first move of this piece
        first_move: bool,
    },
    CastleMove {
        rook_move: Move,
        king_move: Move,
    },
    PawnPromotion {
        /// the move that was made
        m: Move,
        /// the kind of piece the pawn was promoted to
        to: PieceType,
        /// optionally, the piece that was taken by this pawn
        taken: Option<Piece>,
    },
}

pub enum CastleDirection {
    UpFile,
    DownFile,
}

/// A request a front end may pass to a game loop.
pub enum MoveSignal {
    Undo,
    Retire,
    ForceDraw,
    RequestDraw,
    Castle(CastleDirection),
    Make(Move),
    PromotePawnTo(PieceType),
}

/// Which starting-rook files may still castle, per colour.
#[derive(Debug, PartialEq)]
pub struct CastlingAvailability {
    flags: Vec<bool>,
}

/// Position of a colour in the castling-availability table.
pub open spec fn colour_idx(c: Colour) -> int {
    match c {
        Colour::Black => 0,
        Colour::White => 1,
    }
}

impl CastlingAvailability {
    pub closed spec fn flags_seq(self) -> Seq<bool> {
        self.flags@
    }

    pub open spec fn wf(self) -> bool {
        self.flags_seq().len() == 16
    }

    /// Whether the rook that started on `file` is still available for
    /// castling for `colour`.
    pub open spec fn spec_available(self, colour: Colour, file: ColumnIndex) -> bool {
        self.flags_seq()[colour_idx(colour) * 8 + file.idx()]
    }

    /// No rook of either colour available.
    pub fn new_none() -> (ca: Self)
        ensures
            ca.wf(),
            forall|c: Colour, f: ColumnIndex| !ca.spec_available(c, f),
            forall|j: int| 0 <= j < 16 ==> !ca.flags_seq()[j],
    {
        let mut flags: Vec<bool> = Vec::new();
        for i in 0..16usize
            invariant
                flags@.len() == i,
                forall|j: int| 0 <= j < i ==> !flags@[j],
        {
            flags.push(false);
        }
        CastlingAvailability { flags }
    }

    pub fn available(&self, colour: Colour, file: ColumnIndex) -> (r: bool)
        requires
            self.wf(),
        ensures
            r == self.spec_available(colour, file),
    {
        let ci: usize = match colour {
            Colour::Black => 0,
            Colour::White => 1,
        };
        self.flags[ci * 8 + file.index()]
    }

    pub fn set_available(&mut self, colour: Colour, file: ColumnIndex)
        requires
            old(self).wf(),
        ensures
            final(self).wf(),
            final(self).spec_available(colour, file),
            final(self).flags_seq() == old(self).flags_seq().update(
                colour_idx(colour) * 8 + file.idx(),
                true,
            ),
            forall|c: Colour, f: ColumnIndex|
                !(c == colour && f == file) ==> final(self).spec_available(c, f) == old(
                    self,
                ).spec_available(c, f),
    {
        let ci: usize = match colour {
            Colour::Black => 0,
            Colour::White => 1,
        };
        let i = ci * 8 + file.index();
        self.flags[i] = true;
        proof {
            assert forall|c: Colour, f: ColumnIndex| !(c == colour && f == file) implies self
                .spec_available(c, f) == old(self).spec_available(c, f) by {
                assert(colour_idx(c) * 8 + f.idx() != i as int);
            }
        }
    }
}

/// The en-passant state and board of a position, as spec values: what a
/// snapshot of the game must remember to undo a move exactly.
#[verifier::ext_equal]
pub struct StateModel {
    pub player: Colour,
    pub board: Seq<Square>,
    pub ep: Option<Coordinate>,
}

/// The en-passant target a just-made record leaves behind: the square
/// skipped by a double pawn advance, and nothing for every other record.
/// `b` is the board after the record was applied.
pub open spec fn ep_of_last(b: Seq<Square>, r: MoveRecord) -> Option<Coordinate> {
    match r {
        MoveRecord::SimpleMove { m, .. } => match b[m.to.idx()] {
            Some(p) => {
                if p.piece_type == PieceType::Pawn && abs(m.d_row()) == 2 {
                    Some(
                        Coordinate {
                            row: row_of(m.from.row.idx() + sgn(m.d_row())),
                            column: m.to.column,
                        },
                    )
                } else {
                    None
                }
            },
            None => None,
        },
        _ => None,
    }
}

/// The en-passant target of a position: the value supplied at
/// construction while no move has been made, and afterwards whatever the
/// most recent record leaves behind.
pub open spec fn ep_spec(
    b: Seq<Square>,
    hist: Seq<MoveRecord>,
    start: Option<Coordinate>,
) -> Option<Coordinate> {
    if hist.len() == 0 {
        start
    } else {
        ep_of_last(b, hist.last())
    }
}

/// The ordered stack of committed move records, together with the
/// en-passant target the game started with and, as ghost data, the
/// snapshot of the whole position before each record was committed.
pub struct MoveRecords {
    start_en_passant_availability: Option<Coordinate>,
    moves: Vec<MoveRecord>,
    snaps: Ghost<Seq<StateModel>>,
}

impl MoveRecords {
    pub closed spec fn history(self) -> Seq<MoveRecord> {
        self.moves@
    }

    pub closed spec fn start_ep(self) -> Option<Coordinate> {
        self.start_en_passant_availability
    }

    /// The position before each committed record, oldest first.
    pub closed spec fn snaps(self) -> Seq<StateModel> {
        self.snaps@
    }

    pub fn new(start_en_passant_availability: Option<Coordinate>) -> (r: Self)
        ensures
            r.history() == Seq::<MoveRecord>::empty(),
            r.snaps() == Seq::<StateModel>::empty(),
            r.start_ep() == start_en_passant_availability,
    {
        let r = Self { start_en_passant_availability, moves: Vec::new(), snaps: Ghost(Seq::empty()) };
        proof {
            assert(r.history() =~= Seq::<MoveRecord>::empty());
        }
        r
    }

    pub fn can_undo(&self) -> (r: bool)
        ensures
            r == (self.history().len() > 0),
    {
        self.moves.len() > 0
    }

    /// Push a committed record, remembering as ghost data the snapshot of
    /// the position it was committed from.
    pub fn record_move(&mut self, record: MoveRecord, Ghost(snap): Ghost<StateModel>)
        ensures
            final(self).history() == old(self).history().push(record),
            final(self).snaps() == old(self).snaps().push(snap),
            final(self).start_ep() == old(self).start_ep(),
    {
        self.moves.push(record);
        self.snaps = Ghost(old(self).snaps().push(snap));
    }

    /// Pop the most recent record, dropping its snapshot.
    pub fn pop_last_move(&mut self) -> (r: Option<MoveRecord>)
        ensures
            final(self).start_ep() == old(self).start_ep(),
            old(self).history().len() == 0 ==> {
                &&& r is None
                &&& final(self).history() == old(self).history()
                &&& final(self).snaps() == old(self).snaps()
            },
            old(self).history().len() > 0 ==> {
                &&& r == Some(old(self).history().last())
                &&& final(self).history() == old(self).history().drop_last()
                &&& final(self).snaps() == old(self).snaps().drop_last()
            },
    {
        let r = self.moves.pop();
        self.snaps = Ghost(
            if old(self).history().len() > 0 {
                old(self).snaps().drop_last()
            } else {
                old(self).snaps()
            },
        );
        proof {
            if old(self).history().len() > 0 {
                assert(self.history() =~= old(self).history().drop_last());
            } else {
                assert(self.history() =~= old(self).history());
            }
        }
        r
    }

    /// Recompute the en-passant target from the most recent record and the
    /// current board (§ the square skipped by a double pawn advance).
    pub fn get_en_passant_availability(&self, board: &Board) -> (r: Option<Coordinate>)
        requires
            board.wf(),
        ensures
            r == ep_spec(board@, self.history(), self.start_ep()),
    {
        if self.moves.len() == 0 {
            return self.start_en_passant_availability;
        }
        let record = self.moves[self.moves.len() - 1];
        match record {
            MoveRecord::SimpleMove { m, .. } => {
                match board.at(m.to) {
                    Some(piece) => {
                        if matches!(piece.piece_type, PieceType::Pawn) {
                            let from_row = m.from.row.index();
                            let to_row = m.to.row.index();
                            if to_row == from_row + 2 {
                                Some(
                                    Coordinate {
                                        row: crate::coordinates::RowIndex::from_index(from_row + 1),
                                        column: m.to.column,
                                    },
                                )
                            } else if from_row >= 2 && to_row == from_row - 2 {
                                Some(
                                    Coordinate {
                                        row: crate::coordinates::RowIndex::from_index(from_row - 1),
                                        column: m.to.column,
                                    },
                                )
                            } else {
                                None
                            }
                        } else {
                            None
                        }
                    },
                    None => None,
                }
            },
            _ => None,
        }
    }
}

impl Default for MoveRecords {
    fn default() -> (r: Self)
        ensures
            r.history() == Seq::<MoveRecord>::empty(),
            r.snaps() == Seq::<StateModel>::empty(),
            r.start_ep() is None,
    {
        Self::new(None)
    }
}

} // verus!
