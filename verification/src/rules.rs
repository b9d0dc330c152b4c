//! The rules of movement as specification: what a requested move means on
//! a given position, which records a position admits, what committing a
//! record does to the board, and how a record is reversed.

use vstd::prelude::*;

use crate::coordinates::Coordinate;
use crate::coordinates::Move;
use crate::coordinates::RowIndex;
use crate::coordinates::ColumnIndex;
use crate::coordinates::abs;
use crate::coordinates::row_of;
use crate::coordinates::square_of;
use crate::grid::Square;
use crate::grid::first_block_at;
use crate::grid::path_clear;
use crate::moves::MoveRecord;
use crate::moves::StateModel;
use crate::moves::ep_of_last;
use crate::piece::Colour;
use crate::piece::Piece;
use crate::piece::PieceType;
use crate::piece::set_moved;

verus! {

/// Why a requested move is rejected.
pub enum MoveErr {
    EmptySquare,
    OpponentsPiece,
    MustMove,
    TakeOwn,
    Blocked(Piece, Coordinate),
    PawnTakeStraight,
    PawnJump,
    PawnDoubleNotFirst,
    PawnTooFar,
    PawnBackwards,
    PawnHorizontal,
    PawnDiagonalNotTaking,
    PawnDiagTooFar,
    PawnDiagBackwards,
    PawnThisWay,
    RookLine,
    KnightPattern,
    BishopDiagonal,
    QueenLine,
    KingTooFar,
    CastleKingMoved,
    CastleNoRook,
    CastleRookMoved,
    CastleOccupied,
    CastleClash,
}

/// What evaluating a requested move yields: the record to commit, or the
/// reason it is rejected.
pub enum Outcome {
    Record(MoveRecord),
    Fail(MoveErr),
}

/// The first occupant of the squares strictly between the ends of `m`,
/// with its square; meaningful only when the path is not clear.
pub open spec fn blocked_err(b: Seq<Square>, m: Move) -> MoveErr {
    let fb = first_block_at(b, m, 0);
    let c = m.between()[fb];
    match b[c.idx()] {
        Some(p) => MoveErr::Blocked(p, c),
        None => MoveErr::Blocked(Piece { piece_type: PieceType::Pawn, colour: Colour::White, has_moved: false }, c),
    }
}

/// The record for a plain step: a capture when the destination holds a
/// piece, a quiet move otherwise.
pub open spec fn simple_or_take(m: Move, dest: Square, first_move: bool) -> Outcome {
    match dest {
        Some(taken) => Outcome::Record(
            MoveRecord::TakeMove { m, taken, taken_from: m.to, first_move },
        ),
        None => Outcome::Record(MoveRecord::SimpleMove { m, first_move }),
    }
}

pub open spec fn path_checked(b: Seq<Square>, m: Move, then: Outcome) -> Outcome {
    if path_clear(b, m) {
        then
    } else {
        Outcome::Fail(blocked_err(b, m))
    }
}

/// The pawn rules: straight advances (single, and double from the home
/// rank), diagonal captures, promotion on reaching the far rank, and the
/// en-passant capture of a just-double-advanced pawn.
pub open spec fn pawn_outcome(
    b: Seq<Square>,
    ep: Option<Coordinate>,
    m: Move,
    by: Colour,
    p: Piece,
    dest: Square,
) -> Outcome {
    let dr = m.d_row();
    let dc = m.d_column();
    let ri = by.row_increment();
    let end_row = by.spec_other().spec_home_rank();
    let first_move = !p.has_moved;
    if dc == 0 {
        match dest {
            Some(t) => Outcome::Fail(MoveErr::PawnTakeStraight),
            None => {
                let fwd = dr * ri;
                if fwd == 1 {
                    if m.to.row == end_row {
                        Outcome::Record(
                            MoveRecord::PawnPromotion { m, to: PieceType::Queen, taken: None },
                        )
                    } else {
                        Outcome::Record(MoveRecord::SimpleMove { m, first_move })
                    }
                } else if fwd == 2 {
                    let in_between = Coordinate {
                        row: if by == Colour::White {
                            RowIndex::_3
                        } else {
                            RowIndex::_6
                        },
                        column: m.from.column,
                    };
                    if first_move {
                        if b[in_between.idx()] is None {
                            Outcome::Record(MoveRecord::SimpleMove { m, first_move })
                        } else {
                            Outcome::Fail(MoveErr::PawnJump)
                        }
                    } else {
                        Outcome::Fail(MoveErr::PawnDoubleNotFirst)
                    }
                } else if 3 <= fwd <= 7 {
                    Outcome::Fail(MoveErr::PawnTooFar)
                } else {
                    Outcome::Fail(MoveErr::PawnBackwards)
                }
            },
        }
    } else if dc == 1 || dc == -1 {
        let fwd = dr * ri;
        if fwd == 0 {
            Outcome::Fail(MoveErr::PawnHorizontal)
        } else if fwd == 1 {
            match dest {
                Some(taken) => {
                    if m.to.row == end_row {
                        Outcome::Record(
                            MoveRecord::PawnPromotion { m, to: PieceType::Queen, taken: Some(taken) },
                        )
                    } else {
                        Outcome::Record(
                            MoveRecord::TakeMove { m, taken, taken_from: m.to, first_move },
                        )
                    }
                },
                None => {
                    if ep == Some(m.to) {
                        let taken_from = Coordinate { row: m.from.row, column: m.to.column };
                        match b[taken_from.idx()] {
                            Some(victim) => {
                                if victim.colour == by.spec_other() {
                                    Outcome::Record(
                                        MoveRecord::TakeMove { m, taken: victim, taken_from, first_move },
                                    )
                                } else {
                                    Outcome::Fail(MoveErr::PawnDiagonalNotTaking)
                                }
                            },
                            None => Outcome::Fail(MoveErr::PawnDiagonalNotTaking),
                        }
                    } else {
                        Outcome::Fail(MoveErr::PawnDiagonalNotTaking)
                    }
                },
            }
        } else if 2 <= fwd <= 6 {
            Outcome::Fail(MoveErr::PawnDiagTooFar)
        } else {
            Outcome::Fail(MoveErr::PawnDiagBackwards)
        }
    } else {
        if dr == 0 {
            Outcome::Fail(MoveErr::PawnHorizontal)
        } else {
            Outcome::Fail(MoveErr::PawnThisWay)
        }
    }
}

/// The king's castling rule: the king steps two columns along its rank
/// toward the starting-rook file (H upward, A downward); king and rook
/// must be unmoved, the squares from the king to the rook's file clear,
/// and the destination empty. The caller checks the path of safety.
pub open spec fn castle_outcome(
    b: Seq<Square>,
    m: Move,
    by: Colour,
    p: Piece,
    dest: Square,
    dc: int,
) -> Outcome {
    if p.has_moved {
        Outcome::Fail(MoveErr::CastleKingMoved)
    } else {
        let rook_coordinates = Coordinate {
            row: m.from.row,
            column: if dc == 2 {
                ColumnIndex::H
            } else {
                ColumnIndex::A
            },
        };
        match b[rook_coordinates.idx()] {
            None => Outcome::Fail(MoveErr::CastleNoRook),
            Some(rook) => {
                if rook.has_moved {
                    Outcome::Fail(MoveErr::CastleRookMoved)
                } else if dest is Some {
                    Outcome::Fail(MoveErr::CastleOccupied)
                } else {
                    let rook_to = Coordinate {
                        row: rook_coordinates.row,
                        column: if dc == 2 {
                            ColumnIndex::F
                        } else {
                            ColumnIndex::D
                        },
                    };
                    if m.to == rook_to {
                        Outcome::Fail(MoveErr::CastleClash)
                    } else {
                        let path = Move { from: m.from, to: rook_coordinates };
                        if path_clear(b, path) {
                            Outcome::Record(
                                MoveRecord::CastleMove {
                                    king_move: m,
                                    rook_move: Move { from: rook_coordinates, to: rook_to },
                                },
                            )
                        } else {
                            Outcome::Fail(blocked_err(b, path))
                        }
                    }
                }
            },
        }
    }
}

/// What a requested move means on a position: the record to commit, or
/// the first violated rule in checking order. This does not yet consider
/// whether the mover's own king is left safe.
pub open spec fn move_outcome(
    b: Seq<Square>,
    ep: Option<Coordinate>,
    m: Move,
    by: Colour,
) -> Outcome {
    match b[m.from.idx()] {
        None => Outcome::Fail(MoveErr::EmptySquare),
        Some(p) => check_move_spec(b, ep, m, by, p),
    }
}

/// What a requested move of piece `p` means, the piece's own square
/// aside: the rules checked in order after the occupancy of the origin.
pub open spec fn check_move_spec(
    b: Seq<Square>,
    ep: Option<Coordinate>,
    m: Move,
    by: Colour,
    p: Piece,
) -> Outcome {
    if p.colour != by {
                Outcome::Fail(MoveErr::OpponentsPiece)
            } else if m.from == m.to {
                Outcome::Fail(MoveErr::MustMove)
            } else {
                let dest = b[m.to.idx()];
                if dest matches Some(t) && t.colour == by {
                    Outcome::Fail(MoveErr::TakeOwn)
                } else {
                    let dr = m.d_row();
                    let dc = m.d_column();
                    let first_move = !p.has_moved;
                    match p.piece_type {
                        PieceType::Pawn => pawn_outcome(b, ep, m, by, p, dest),
                        PieceType::Rook => {
                            if dr == 0 || dc == 0 {
                                path_checked(b, m, simple_or_take(m, dest, first_move))
                            } else {
                                Outcome::Fail(MoveErr::RookLine)
                            }
                        },
                        PieceType::Knight => {
                            if (abs(dr) == 1 && abs(dc) == 2) || (abs(dr) == 2 && abs(dc) == 1) {
                                simple_or_take(m, dest, first_move)
                            } else {
                                Outcome::Fail(MoveErr::KnightPattern)
                            }
                        },
                        PieceType::Bishop => {
                            if abs(dr) == abs(dc) {
                                path_checked(b, m, simple_or_take(m, dest, first_move))
                            } else {
                                Outcome::Fail(MoveErr::BishopDiagonal)
                            }
                        },
                        PieceType::Queen => {
                            if dr == 0 || dc == 0 || abs(dr) == abs(dc) {
                                path_checked(b, m, simple_or_take(m, dest, first_move))
                            } else {
                                Outcome::Fail(MoveErr::QueenLine)
                            }
                        },
                        PieceType::King => {
                            if abs(dr) <= 1 && abs(dc) <= 1 {
                                simple_or_take(m, dest, first_move)
                            } else if dr == 0 && (dc == 2 || dc == -2) {
                                castle_outcome(b, m, by, p, dest, dc)
                            } else {
                                Outcome::Fail(MoveErr::KingTooFar)
                            }
                        },
                    }
                }
            }
    }

/// A record can be committed on board `b` by `by` and reversed exactly:
/// the pieces it speaks of stand where it says, its target squares are
/// free, and its `first_move` data agrees with the board.
pub open spec fn record_valid(b: Seq<Square>, by: Colour, r: MoveRecord) -> bool {
    b.len() == 64 && match r {
        MoveRecord::SimpleMove { m, first_move } => {
            &&& b[m.from.idx()] matches Some(p)
            &&& p.colour == by
            &&& first_move == !p.has_moved
            &&& b[m.to.idx()] is None
        },
        MoveRecord::TakeMove { m, taken, taken_from, first_move } => {
            &&& b[m.from.idx()] matches Some(p)
            &&& p.colour == by
            &&& first_move == !p.has_moved
            &&& b[taken_from.idx()] == Some(taken)
            &&& taken.colour == by.spec_other()
            &&& taken_from != m.from
            &&& m.from != m.to
            &&& (taken_from == m.to || b[m.to.idx()] is None)
        },
        MoveRecord::CastleMove { king_move, rook_move } => {
            &&& b[king_move.from.idx()] matches Some(k)
            &&& k.colour == by
            &&& !k.has_moved
            &&& b[rook_move.from.idx()] matches Some(rk)
            &&& !rk.has_moved
            &&& b[king_move.to.idx()] is None
            &&& (rook_move.to == king_move.from || b[rook_move.to.idx()] is None)
            &&& king_move.to != rook_move.to
            &&& king_move.from != rook_move.from
            &&& path_clear(b, king_move)
        },
        MoveRecord::PawnPromotion { m, to, taken } => {
            &&& b[m.from.idx()] == Some(
                Piece { piece_type: PieceType::Pawn, colour: by, has_moved: true },
            )
            &&& b[m.to.idx()] == taken
            &&& m.from != m.to
            &&& (taken matches Some(t) ==> t.colour == by.spec_other())
        },
    }
}

/// The board after committing `r` for mover `by`: pieces move with their
/// `has_moved` flag set; for a castle the king moves first, then the rook.
pub open spec fn apply_record(b: Seq<Square>, by: Colour, r: MoveRecord) -> Seq<Square> {
    match r {
        MoveRecord::SimpleMove { m, .. } => b.update(m.from.idx(), None).update(
            m.to.idx(),
            set_moved(b[m.from.idx()], true),
        ),
        MoveRecord::TakeMove { m, taken_from, .. } => b.update(taken_from.idx(), None).update(
            m.from.idx(),
            None,
        ).update(m.to.idx(), set_moved(b[m.from.idx()], true)),
        MoveRecord::CastleMove { king_move, rook_move } => b.update(king_move.from.idx(), None)
            .update(king_move.to.idx(), set_moved(b[king_move.from.idx()], true)).update(
            rook_move.from.idx(),
            None,
        ).update(rook_move.to.idx(), set_moved(b[rook_move.from.idx()], true)),
        MoveRecord::PawnPromotion { m, to, .. } => b.update(m.from.idx(), None).update(
            m.to.idx(),
            Some(Piece { piece_type: to, colour: by, has_moved: true }),
        ),
    }
}

/// The board after reversing `r` on board `b2`, for original mover `by`:
/// what undoing a move does square by square.
pub open spec fn undo_record(b2: Seq<Square>, by: Colour, r: MoveRecord) -> Seq<Square> {
    match r {
        MoveRecord::SimpleMove { m, first_move } => b2.update(m.to.idx(), None).update(
            m.from.idx(),
            set_moved(b2[m.to.idx()], !first_move),
        ),
        MoveRecord::TakeMove { m, taken, taken_from, first_move } => b2.update(m.to.idx(), None)
            .update(m.from.idx(), set_moved(b2[m.to.idx()], !first_move)).update(
            taken_from.idx(),
            Some(taken),
        ),
        MoveRecord::CastleMove { king_move, rook_move } => b2.update(rook_move.to.idx(), None)
            .update(rook_move.from.idx(), set_moved(b2[rook_move.to.idx()], false)).update(
            king_move.to.idx(),
            None,
        ).update(king_move.from.idx(), set_moved(b2[king_move.to.idx()], false)),
        MoveRecord::PawnPromotion { m, to, taken } => b2.update(m.to.idx(), taken).update(
            m.from.idx(),
            Some(Piece { piece_type: PieceType::Pawn, colour: by, has_moved: true }),
        ),
    }
}

/// Undoing a committed record restores the board exactly.
#[verifier::rlimit(100)]
#[verifier::spinoff_prover]
pub proof fn lemma_undo_apply(b: Seq<Square>, by: Colour, r: MoveRecord)
    requires
        record_valid(b, by, r),
    ensures
        undo_record(apply_record(b, by, r), by, r) == b,
{
    broadcast use crate::coordinates::lemma_idx_inj;

    let b2 = apply_record(b, by, r);
    match r {
        MoveRecord::SimpleMove { m, first_move } => {
            assert(undo_record(b2, by, r) =~= b);
        },
        MoveRecord::TakeMove { m, taken, taken_from, first_move } => {
            assert(undo_record(b2, by, r) =~= b);
        },
        MoveRecord::CastleMove { king_move, rook_move } => {
            assert(undo_record(b2, by, r) =~= b);
        },
        MoveRecord::PawnPromotion { m, to, taken } => {
            assert(undo_record(b2, by, r) =~= b);
        },
    }
}

/// A piece of the mover's colour stands somewhere on the board and is a
/// king.
pub open spec fn is_king_at(b: Seq<Square>, i: int, c: Colour) -> bool {
    &&& 0 <= i < 64
    &&& b[i] matches Some(p)
    &&& p.piece_type == PieceType::King
    &&& p.colour == c
}

pub open spec fn has_king(b: Seq<Square>, c: Colour) -> bool {
    exists|i: int| is_king_at(b, i, c)
}

/// Committing a valid record never removes a piece of the mover's colour:
/// in particular the mover keeps a king.
pub proof fn lemma_apply_keeps_king(b: Seq<Square>, by: Colour, r: MoveRecord)
    requires
        record_valid(b, by, r),
        has_king(b, by),
    ensures
        has_king(apply_record(b, by, r), by),
{
    if let MoveRecord::CastleMove { king_move, rook_move } = r {
        crate::coordinates::lemma_idx_inj(king_move.from, king_move.to);
        crate::coordinates::lemma_idx_inj(king_move.from, rook_move.from);
        crate::coordinates::lemma_idx_inj(king_move.from, rook_move.to);
        crate::coordinates::lemma_idx_inj(king_move.to, rook_move.from);
        crate::coordinates::lemma_idx_inj(king_move.to, rook_move.to);
        crate::coordinates::lemma_idx_inj(rook_move.from, rook_move.to);
    }
    let b2 = apply_record(b, by, r);
    let ki = choose|i: int| is_king_at(b, i, by);
    match r {
        MoveRecord::SimpleMove { m, first_move } => {
            if ki == m.from.idx() {
                assert(is_king_at(b2, m.to.idx(), by));
            } else {
                assert(is_king_at(b2, ki, by));
            }
        },
        MoveRecord::TakeMove { m, taken, taken_from, first_move } => {
            if ki == m.from.idx() {
                assert(is_king_at(b2, m.to.idx(), by));
            } else {
                assert(ki != taken_from.idx());
                assert(is_king_at(b2, ki, by));
            }
        },
        MoveRecord::CastleMove { king_move, rook_move } => {
            if ki == king_move.from.idx() {
                if rook_move.to.idx() == king_move.to.idx() {
                    assert(false);
                }
                assert(is_king_at(b2, king_move.to.idx(), by));
            } else if ki == rook_move.from.idx() {
                assert(is_king_at(b2, rook_move.to.idx(), by));
            } else {
                assert(b[king_move.to.idx()] is None);
                assert(ki != king_move.to.idx());
                if ki == rook_move.to.idx() {
                    assert(false);
                }
                assert(is_king_at(b2, ki, by));
            }
        },
        MoveRecord::PawnPromotion { m, to, taken } => {
            assert(ki != m.from.idx());
            if ki == m.to.idx() {
                assert(false);
            }
            assert(is_king_at(b2, ki, by));
        },
    }
}

/// Row position of the home pawn rank of a colour.
pub open spec fn pawn_home_row(c: Colour) -> int {
    match c {
        Colour::White => 6,
        Colour::Black => 1,
    }
}

/// Every pawn away from its colour's home pawn rank is marked moved.
pub open spec fn pawns_off_home_moved(b: Seq<Square>) -> bool {
    forall|i: int|
        0 <= i < 64 ==> match #[trigger] b[i] {
            Some(p) => p.piece_type == PieceType::Pawn && i / 8 != pawn_home_row(p.colour)
                ==> p.has_moved,
            None => true,
        }
}

/// Committing a valid record keeps every off-home pawn marked moved.
pub proof fn lemma_apply_keeps_pawn_marks(b: Seq<Square>, by: Colour, r: MoveRecord)
    requires
        record_valid(b, by, r),
        pawns_off_home_moved(b),
    ensures
        pawns_off_home_moved(apply_record(b, by, r)),
{
    let b2 = apply_record(b, by, r);
    assert forall|i: int| 0 <= i < 64 implies match #[trigger] b2[i] {
        Some(p) => p.piece_type == PieceType::Pawn && i / 8 != pawn_home_row(p.colour)
            ==> p.has_moved,
        None => true,
    } by {
        match r {
            MoveRecord::SimpleMove { m, first_move } => {
                if i != m.from.idx() && i != m.to.idx() {
                    assert(b2[i] == b[i]);
                }
            },
            MoveRecord::TakeMove { m, taken, taken_from, first_move } => {
                if i != m.from.idx() && i != m.to.idx() && i != taken_from.idx() {
                    assert(b2[i] == b[i]);
                }
            },
            MoveRecord::CastleMove { king_move, rook_move } => {
                if i != king_move.from.idx() && i != king_move.to.idx() && i != rook_move.from.idx()
                    && i != rook_move.to.idx() {
                    assert(b2[i] == b[i]);
                }
            },
            MoveRecord::PawnPromotion { m, to, taken } => {
                if i != m.from.idx() && i != m.to.idx() {
                    assert(b2[i] == b[i]);
                }
            },
        }
    }
}

/// The position after committing `r`: board applied, mover flipped, and
/// the en-passant target recomputed from the new board and `r`.
pub open spec fn apply_model(st: StateModel, r: MoveRecord) -> StateModel {
    let b2 = apply_record(st.board, st.player, r);
    StateModel { player: st.player.spec_other(), board: b2, ep: ep_of_last(b2, r) }
}

/// A position's board is complete and its pawn marks are consistent.
pub open spec fn model_ok(st: StateModel) -> bool {
    &&& st.board.len() == 64
    &&& pawns_off_home_moved(st.board)
}

pub proof fn lemma_apply_model_ok(st: StateModel, r: MoveRecord)
    requires
        model_ok(st),
        record_valid(st.board, st.player, r),
    ensures
        model_ok(apply_model(st, r)),
{
    lemma_apply_keeps_pawn_marks(st.board, st.player, r);
}

/// Position of the first square holding `c`'s king, searching board order
/// from `i`; 64 when there is none at or after `i`.
pub open spec fn first_king_at(b: Seq<Square>, c: Colour, i: int) -> int
    decreases 64 - i,
    when 0 <= i <= 64
{
    if i >= 64 {
        64
    } else if is_king_at(b, i, c) {
        i
    } else {
        first_king_at(b, c, i + 1)
    }
}

/// The square of `c`'s king nearest the top of the board in board order.
pub open spec fn king_square(b: Seq<Square>, c: Colour) -> Coordinate {
    square_of(first_king_at(b, c, 0))
}

/// Some piece of `by` has a pseudo-legal move onto `target`.
pub open spec fn attacks_square(
    b: Seq<Square>,
    ep: Option<Coordinate>,
    target: Coordinate,
    by: Colour,
) -> bool {
    exists|i: int|
        0 <= i < 64 && (#[trigger] move_outcome(b, ep, Move { from: square_of(i), to: target }, by))
            matches Outcome::Record(_)
}

/// The player's king square is reachable by some pseudo-legal move of the
/// opponent.
pub open spec fn in_check(st: StateModel, player: Colour) -> bool {
    &&& has_king(st.board, player)
    &&& attacks_square(st.board, st.ep, king_square(st.board, player), player.spec_other())
}

/// Committing `r` leaves the mover's king in check; a castle is also
/// refused when the king starts in check or would pass through an
/// attacked square.
pub open spec fn would_check(st: StateModel, r: MoveRecord) -> bool {
    let after = in_check(apply_model(st, r), st.player);
    match r {
        MoveRecord::CastleMove { king_move, .. } => {
            ||| in_check(st, st.player)
            ||| exists|i: int|
                0 <= i < king_move.between().len() && in_check(
                    apply_model(
                        st,
                        MoveRecord::SimpleMove {
                            m: Move { from: king_move.from, to: king_move.between()[i] },
                            first_move: true,
                        },
                    ),
                    st.player,
                )
            ||| after
        },
        _ => after,
    }
}

/// The move is admitted by the piece rules and leaves the mover's own
/// king safe.
pub open spec fn move_legal(st: StateModel, mv: Move) -> bool {
    &&& move_outcome(st.board, st.ep, mv, st.player) matches Outcome::Record(r)
    &&& !would_check(st, r)
}

/// The legal moves out of `from` whose destinations lie among the first
/// `n` squares in board order.
pub open spec fn legal_from_upto(st: StateModel, from: Coordinate, n: int) -> Seq<Move>
    decreases n,
{
    if n <= 0 {
        Seq::empty()
    } else {
        let rest = legal_from_upto(st, from, n - 1);
        let mv = Move { from, to: square_of(n - 1) };
        if move_legal(st, mv) {
            rest.push(mv)
        } else {
            rest
        }
    }
}

/// The legal moves out of `from`, destinations in board order.
pub open spec fn legal_moves_from_seq(st: StateModel, from: Coordinate) -> Seq<Move> {
    legal_from_upto(st, from, 64)
}

/// The legal moves whose origins lie among the first `n` squares in
/// board order.
pub open spec fn legal_upto(st: StateModel, n: int) -> Seq<Move>
    decreases n,
{
    if n <= 0 {
        Seq::empty()
    } else {
        legal_upto(st, n - 1) + legal_from_upto(st, square_of(n - 1), 64)
    }
}

/// All legal moves of the position, origins in board order and
/// destinations in board order within each origin.
pub open spec fn legal_moves_seq(st: StateModel) -> Seq<Move> {
    legal_upto(st, 64)
}

/// Every member of the per-origin enumeration is a legal move from that
/// origin, and every legal move from it with a destination below `n` is a
/// member.
pub proof fn lemma_legal_from_upto_iff(st: StateModel, from: Coordinate, n: int, mv: Move)
    requires
        0 <= n <= 64,
    ensures
        legal_from_upto(st, from, n).contains(mv) <==> (move_legal(st, mv) && mv.from == from
            && 0 <= mv.to.idx() < n && mv.to == square_of(mv.to.idx())),
    decreases n,
{
    crate::coordinates::lemma_square_of_idx(mv.to);
    if n > 0 {
        lemma_legal_from_upto_iff(st, from, n - 1, mv);
        let rest = legal_from_upto(st, from, n - 1);
        let cand = Move { from, to: square_of(n - 1) };
        if move_legal(st, cand) {
            assert(legal_from_upto(st, from, n) == rest.push(cand));
            assert(rest.push(cand).contains(mv) <==> (rest.contains(mv) || mv == cand)) by {
                if rest.push(cand).contains(mv) {
                    let j = choose|j: int| 0 <= j < rest.push(cand).len() && rest.push(cand)[j]
                        == mv;
                    if j < rest.len() {
                        assert(rest[j] == mv);
                    }
                } else {
                    if rest.contains(mv) {
                        let j = choose|j: int| 0 <= j < rest.len() && rest[j] == mv;
                        assert(rest.push(cand)[j] == mv);
                    }
                    assert(rest.push(cand)[rest.len() as int] == cand);
                }
            }
            if mv == cand {
                crate::coordinates::lemma_idx_of_square(n - 1);
            }
        }
    }
}

/// A move stands in the full enumeration exactly when it is legal.
pub proof fn lemma_legal_upto_iff(st: StateModel, n: int, mv: Move)
    requires
        0 <= n <= 64,
    ensures
        legal_upto(st, n).contains(mv) <==> (move_legal(st, mv) && 0 <= mv.from.idx() < n),
    decreases n,
{
    crate::coordinates::lemma_square_of_idx(mv.from);
    crate::coordinates::lemma_square_of_idx(mv.to);
    if n > 0 {
        lemma_legal_upto_iff(st, n - 1, mv);
        let a = legal_upto(st, n - 1);
        let b = legal_from_upto(st, square_of(n - 1), 64);
        lemma_legal_from_upto_iff(st, square_of(n - 1), 64, mv);
        assert((a + b).contains(mv) <==> (a.contains(mv) || b.contains(mv))) by {
            if (a + b).contains(mv) {
                let j = choose|j: int| 0 <= j < (a + b).len() && (a + b)[j] == mv;
                if j < a.len() {
                    assert(a[j] == mv);
                } else {
                    assert(b[j - a.len()] == mv);
                }
            } else {
                if a.contains(mv) {
                    let j = choose|j: int| 0 <= j < a.len() && a[j] == mv;
                    assert((a + b)[j] == mv);
                }
                if b.contains(mv) {
                    let j = choose|j: int| 0 <= j < b.len() && b[j] == mv;
                    assert((a + b)[j + a.len()] == mv);
                }
            }
        }
        if b.contains(mv) {
            crate::coordinates::lemma_idx_of_square(n - 1);
        }
    }
}

/// Every legal move of a position stands in `legal_moves_seq`, and
/// everything in `legal_moves_seq` is a legal move.
pub proof fn lemma_legal_moves_iff(st: StateModel, mv: Move)
    ensures
        legal_moves_seq(st).contains(mv) <==> move_legal(st, mv),
{
    lemma_legal_upto_iff(st, 64, mv);
}

/// The ghost snapshot chain of a game is sound: one snapshot per
/// committed record, each record valid on its snapshot and carrying it to
/// the next position, and the en-passant bookkeeping consistent with the
/// value supplied at construction.
pub open spec fn chain_ok(
    snaps: Seq<StateModel>,
    hist: Seq<MoveRecord>,
    start_ep: Option<Coordinate>,
    cur: StateModel,
) -> bool {
    &&& snaps.len() == hist.len()
    &&& (forall|i: int| 0 <= i < hist.len() ==> model_ok(#[trigger] snaps[i]))
    &&& (forall|i: int|
        0 <= i < hist.len() ==> record_valid(snaps[i].board, snaps[i].player, #[trigger] hist[i]))
    &&& (forall|i: int|
        0 <= i < hist.len() - 1 ==> apply_model(snaps[i], #[trigger] hist[i]) == snaps[i + 1])
    &&& (hist.len() > 0 ==> apply_model(snaps.last(), hist.last()) == cur)
    &&& (hist.len() > 0 ==> snaps[0].ep == start_ep)
    &&& (hist.len() == 0 ==> cur.ep == start_ep)
}

/// Committing a valid record extends the snapshot chain.
pub proof fn lemma_chain_push(
    snaps: Seq<StateModel>,
    hist: Seq<MoveRecord>,
    start_ep: Option<Coordinate>,
    cur: StateModel,
    record: MoveRecord,
)
    requires
        chain_ok(snaps, hist, start_ep, cur),
        model_ok(cur),
        record_valid(cur.board, cur.player, record),
    ensures
        chain_ok(snaps.push(cur), hist.push(record), start_ep, apply_model(cur, record)),
        model_ok(apply_model(cur, record)),
{
    lemma_apply_model_ok(cur, record);
    let snaps2 = snaps.push(cur);
    let hist2 = hist.push(record);
    assert forall|i: int| 0 <= i < hist2.len() implies model_ok(#[trigger] snaps2[i])
        && record_valid(snaps2[i].board, snaps2[i].player, hist2[i]) by {
        if i < hist.len() {
            assert(snaps2[i] == snaps[i] && hist2[i] == hist[i]);
        } else {
            assert(snaps2[i] == cur && hist2[i] == record);
        }
    }
    assert forall|i: int| 0 <= i < hist2.len() - 1 implies apply_model(snaps2[i], #[trigger] hist2[i])
        == snaps2[i + 1] by {
        if i < hist.len() - 1 {
            assert(snaps2[i] == snaps[i] && hist2[i] == hist[i] && snaps2[i + 1] == snaps[i + 1]);
        } else {
            assert(i == hist.len() - 1);
            assert(snaps2[i] == snaps.last() && hist2[i] == hist.last() && snaps2[i + 1] == cur);
        }
    }
}

/// Reversing the most recent record shortens the snapshot chain, and the
/// restored position is exactly the last snapshot.
pub proof fn lemma_chain_pop(
    snaps: Seq<StateModel>,
    hist: Seq<MoveRecord>,
    start_ep: Option<Coordinate>,
    cur: StateModel,
)
    requires
        chain_ok(snaps, hist, start_ep, cur),
        hist.len() > 0,
    ensures
        chain_ok(snaps.drop_last(), hist.drop_last(), start_ep, snaps.last()),
        model_ok(snaps.last()),
        record_valid(snaps.last().board, snaps.last().player, hist.last()),
        apply_model(snaps.last(), hist.last()) == cur,
        snaps.last().ep == crate::moves::ep_spec(snaps.last().board, hist.drop_last(), start_ep),
{
    let snap = snaps.last();
    let snaps2 = snaps.drop_last();
    let hist2 = hist.drop_last();
    assert(snaps[hist.len() - 1] == snap);
    assert forall|i: int| 0 <= i < hist2.len() implies model_ok(#[trigger] snaps2[i])
        && record_valid(snaps2[i].board, snaps2[i].player, hist2[i]) by {
        assert(snaps2[i] == snaps[i] && hist2[i] == hist[i]);
    }
    assert forall|i: int| 0 <= i < hist2.len() - 1 implies apply_model(snaps2[i], #[trigger] hist2[i])
        == snaps2[i + 1] by {
        assert(snaps2[i] == snaps[i] && hist2[i] == hist[i] && snaps2[i + 1] == snaps[i + 1]);
    }
    if hist2.len() > 0 {
        assert(apply_model(snaps[hist.len() - 2], hist[hist.len() - 2]) == snaps[hist.len() - 1]);
        assert(snaps2.last() == snaps[hist.len() - 2]);
        assert(hist2.last() == hist[hist.len() - 2]);
        assert(snap.ep == crate::moves::ep_of_last(snap.board, hist2.last()));
    } else {
        assert(snap == snaps[0]);
    }
}

/// No legal move is left and the side to move stands in check.
pub open spec fn checkmate_spec(st: StateModel) -> bool {
    &&& in_check(st, st.player)
    &&& legal_moves_seq(st).len() == 0
}

pub open spec fn row_name(r: RowIndex) -> Seq<char> {
    match r {
        RowIndex::_8 => "_8"@,
        RowIndex::_7 => "_7"@,
        RowIndex::_6 => "_6"@,
        RowIndex::_5 => "_5"@,
        RowIndex::_4 => "_4"@,
        RowIndex::_3 => "_3"@,
        RowIndex::_2 => "_2"@,
        RowIndex::_1 => "_1"@,
    }
}

pub open spec fn col_name(c: ColumnIndex) -> Seq<char> {
    match c {
        ColumnIndex::A => "A"@,
        ColumnIndex::B => "B"@,
        ColumnIndex::C => "C"@,
        ColumnIndex::D => "D"@,
        ColumnIndex::E => "E"@,
        ColumnIndex::F => "F"@,
        ColumnIndex::G => "G"@,
        ColumnIndex::H => "H"@,
    }
}

pub open spec fn colour_name(c: Colour) -> Seq<char> {
    match c {
        Colour::White => "White"@,
        Colour::Black => "Black"@,
    }
}

pub open spec fn kind_name(k: PieceType) -> Seq<char> {
    match k {
        PieceType::Pawn => "Pawn"@,
        PieceType::Rook => "Rook"@,
        PieceType::Knight => "Knight"@,
        PieceType::Bishop => "Bishop"@,
        PieceType::Queen => "Queen"@,
        PieceType::King => "King"@,
    }
}

/// The text of each rejection, naming for a blocked path the first
/// occupant and its square.
pub open spec fn err_text(k: MoveErr) -> Seq<char> {
    match k {
        MoveErr::EmptySquare => "Cannot move an empty square"@,
        MoveErr::OpponentsPiece => "Cannot move opponent's piece"@,
        MoveErr::MustMove => "Must move piece"@,
        MoveErr::TakeOwn => "Cannot take own piece"@,
        MoveErr::Blocked(p, c) => "Cannot move here: blocked at ("@ + row_name(c.row) + ", "@
            + col_name(c.column) + "), by "@ + colour_name(p.colour) + " "@ + kind_name(
            p.piece_type,
        ),
        MoveErr::PawnTakeStraight => "Cannot take with Pawn unless diagonally"@,
        MoveErr::PawnJump => "Cannot jump with Pawn"@,
        MoveErr::PawnDoubleNotFirst => "Cannot double move Pawn unless on start row"@,
        MoveErr::PawnTooFar => "Cannot move Pawn more than two squares"@,
        MoveErr::PawnBackwards => "Cannot move Pawn backwards"@,
        MoveErr::PawnHorizontal => "Cannot move Pawn horizontally"@,
        MoveErr::PawnDiagonalNotTaking => "Cannot move Pawn diagonally unless taking"@,
        MoveErr::PawnDiagTooFar => "Cannot move Pawn here: too far"@,
        MoveErr::PawnDiagBackwards => "Cannot move Pawn here: must move forwards"@,
        MoveErr::PawnThisWay => "Cannot move Pawn this way"@,
        MoveErr::RookLine => "Cannot move Rook here: not a straight line"@,
        MoveErr::KnightPattern => "Cannot move Knight here: not in L pattern"@,
        MoveErr::BishopDiagonal => "Cannot move Bishop here: not a diagonal line"@,
        MoveErr::QueenLine => "Cannot move Queen here: not in a line"@,
        MoveErr::KingTooFar => "Cannot move King more than one square"@,
        MoveErr::CastleKingMoved => "Cannot castle: King has been moved"@,
        MoveErr::CastleNoRook => "Cannot castle: no Rook found"@,
        MoveErr::CastleRookMoved => "Cannot castle this way: target Rook has been moved"@,
        MoveErr::CastleOccupied => "Cannot castle: cannot take piece during castle"@,
        MoveErr::CastleClash => "Cannot castle here: King and Rook would land on the same square"@,
    }
}

fn row_name_str(r: RowIndex) -> (s: &'static str)
    ensures
        s@ == row_name(r),
{
    match r {
        RowIndex::_8 => "_8",
        RowIndex::_7 => "_7",
        RowIndex::_6 => "_6",
        RowIndex::_5 => "_5",
        RowIndex::_4 => "_4",
        RowIndex::_3 => "_3",
        RowIndex::_2 => "_2",
        RowIndex::_1 => "_1",
    }
}

fn col_name_str(c: ColumnIndex) -> (s: &'static str)
    ensures
        s@ == col_name(c),
{
    match c {
        ColumnIndex::A => "A",
        ColumnIndex::B => "B",
        ColumnIndex::C => "C",
        ColumnIndex::D => "D",
        ColumnIndex::E => "E",
        ColumnIndex::F => "F",
        ColumnIndex::G => "G",
        ColumnIndex::H => "H",
    }
}

fn colour_name_str(c: Colour) -> (s: &'static str)
    ensures
        s@ == colour_name(c),
{
    match c {
        Colour::White => "White",
        Colour::Black => "Black",
    }
}

fn kind_name_str(k: PieceType) -> (s: &'static str)
    ensures
        s@ == kind_name(k),
{
    match k {
        PieceType::Pawn => "Pawn",
        PieceType::Rook => "Rook",
        PieceType::Knight => "Knight",
        PieceType::Bishop => "Bishop",
        PieceType::Queen => "Queen",
        PieceType::King => "King",
    }
}

/// The message for a blocked path, naming the first occupant.
pub fn blocked_message(p: Piece, c: Coordinate) -> (s: String)
    ensures
        s@ == err_text(MoveErr::Blocked(p, c)),
{
    let mut s = String::from_str("Cannot move here: blocked at (");
    s.append(row_name_str(c.row));
    s.append(", ");
    s.append(col_name_str(c.column));
    s.append("), by ");
    s.append(colour_name_str(p.colour));
    s.append(" ");
    s.append(kind_name_str(p.piece_type));
    s
}

/// A record the rules hand out can be committed and reversed exactly on
/// the position it came from.
pub proof fn lemma_outcome_valid(
    b: Seq<Square>,
    ep: Option<Coordinate>,
    m: Move,
    by: Colour,
    rec: MoveRecord,
)
    requires
        b.len() == 64,
        pawns_off_home_moved(b),
        move_outcome(b, ep, m, by) == Outcome::Record(rec),
    ensures
        record_valid(b, by, rec),
{
    broadcast use crate::coordinates::lemma_idx_inj;
    broadcast use crate::coordinates::lemma_row_idx_inj;
    broadcast use crate::coordinates::lemma_col_idx_inj;
    broadcast use crate::coordinates::lemma_row_of_idx;
    broadcast use crate::coordinates::lemma_col_of_idx;

    let p = b[m.from.idx()].unwrap();
    let dest = b[m.to.idx()];
    assert(m.from.idx() / 8 == m.from.row.idx() && m.from.idx() % 8 == m.from.column.idx())
        by (nonlinear_arith)
        requires
            0 <= m.from.row.idx() < 8,
            0 <= m.from.column.idx() < 8,
            m.from.idx() == m.from.row.idx() * 8 + m.from.column.idx(),
    ;
    match p.piece_type {
        PieceType::Pawn => {
            lemma_pawn_outcome_valid(b, ep, m, by, rec);
        },
        PieceType::King => {
            if m.d_row() == 0 && (m.d_column() == 2 || m.d_column() == -2) && !(abs(m.d_row()) <= 1
                && abs(m.d_column()) <= 1) {
                lemma_castle_outcome_valid(b, ep, m, by, rec);
            }
        },
        _ => {},
    }
}

/// Validity of the records the pawn rules hand out.
proof fn lemma_pawn_outcome_valid(
    b: Seq<Square>,
    ep: Option<Coordinate>,
    m: Move,
    by: Colour,
    rec: MoveRecord,
)
    requires
        b.len() == 64,
        pawns_off_home_moved(b),
        move_outcome(b, ep, m, by) == Outcome::Record(rec),
        b[m.from.idx()] matches Some(p) && p.piece_type == PieceType::Pawn,
    ensures
        record_valid(b, by, rec),
{
    broadcast use crate::coordinates::lemma_idx_inj;
    broadcast use crate::coordinates::lemma_row_idx_inj;
    broadcast use crate::coordinates::lemma_col_idx_inj;

    let p = b[m.from.idx()].unwrap();
    assert(m.from.idx() / 8 == m.from.row.idx()) by (nonlinear_arith)
        requires
            0 <= m.from.row.idx() < 8,
            0 <= m.from.column.idx() < 8,
            m.from.idx() == m.from.row.idx() * 8 + m.from.column.idx(),
    ;
    let dr = m.d_row();
    let ri = by.row_increment();
    if dr * ri == 1 && m.to.row == by.spec_other().spec_home_rank() {
        assert(dr == ri * 1) by (nonlinear_arith)
            requires
                dr * ri == 1,
                ri == 1 || ri == -1,
        ;
        assert(m.from.row.idx() != pawn_home_row(by));
        assert(p.has_moved);
    }
}

/// Validity of the castle records the king rules hand out.
proof fn lemma_castle_outcome_valid(
    b: Seq<Square>,
    ep: Option<Coordinate>,
    m: Move,
    by: Colour,
    rec: MoveRecord,
)
    requires
        b.len() == 64,
        move_outcome(b, ep, m, by) == Outcome::Record(rec),
        b[m.from.idx()] matches Some(p) && p.piece_type == PieceType::King,
        m.d_row() == 0,
        m.d_column() == 2 || m.d_column() == -2,
    ensures
        record_valid(b, by, rec),
{
    broadcast use crate::coordinates::lemma_idx_inj;
    broadcast use crate::coordinates::lemma_row_idx_inj;
    broadcast use crate::coordinates::lemma_col_idx_inj;
    broadcast use crate::coordinates::lemma_row_of_idx;
    broadcast use crate::coordinates::lemma_col_of_idx;

    let p = b[m.from.idx()].unwrap();
    let dc = m.d_column();
    let rf = Coordinate {
        row: m.from.row,
        column: if dc == 2 {
            ColumnIndex::H
        } else {
            ColumnIndex::A
        },
    };
    let rt = Coordinate {
        row: m.from.row,
        column: if dc == 2 {
            ColumnIndex::F
        } else {
            ColumnIndex::D
        },
    };
    let path = Move { from: m.from, to: rf };
    if b[rf.idx()] matches Some(rook) && !rook.has_moved && b[m.to.idx()] is None && m.to != rt
        && !p.has_moved && path_clear(b, path) {
        assert(rec == MoveRecord::CastleMove {
            king_move: m,
            rook_move: Move { from: rf, to: rt },
        });
        let kc = m.from.column.idx();
        // the path from the king to the rook's file covers the king's own
        // crossing square and, unless the rook lands on the king's square,
        // the rook's destination too
        assert(path.step_count() == abs(rf.column.idx() - kc));
        if dc == 2 {
            assert(m.to.column.idx() == kc + 2);
            assert(kc <= 4);
            assert(path.between()[0] == Coordinate { row: m.from.row, column: crate::coordinates::col_of(kc + 1) });
            assert(b[path.between()[0].idx()] is None);
            assert(m.between().len() == 1);
            assert(m.between()[0] == path.between()[0]);
            assert(path_clear(b, m));
            if kc != 5 {
                assert(kc < 5);
                let j = 4 - kc;
                assert(0 <= j < path.between().len());
                assert(path.between()[j] == Coordinate { row: m.from.row, column: crate::coordinates::col_of(5) });
                assert(path.between()[j] == rt);
                assert(b[rt.idx()] is None);
            }
        } else {
            assert(m.to.column.idx() == kc - 2);
            assert(kc >= 3);
            assert(path.between()[0] == Coordinate { row: m.from.row, column: crate::coordinates::col_of(kc - 1) });
            assert(b[path.between()[0].idx()] is None);
            assert(m.between().len() == 1);
            assert(m.between()[0] == path.between()[0]);
            assert(path_clear(b, m));
            if kc != 3 {
                assert(kc >= 4);
                let j = kc - 4;
                assert(0 <= j < path.between().len());
                assert(path.between()[j] == Coordinate { row: m.from.row, column: crate::coordinates::col_of(3) });
                assert(path.between()[j] == rt);
                assert(b[rt.idx()] is None);
            } else {
                assert(rt == m.from);
            }
        }
    }
}

} // verus!
