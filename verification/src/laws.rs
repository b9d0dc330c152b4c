//! The general laws of the engine, stated once and proved from the
//! contracts of the rules: enumeration completeness and soundness, the
//! make/unmake identity, the alternation of the side to move, and the
//! en-passant discipline.

use vstd::prelude::*;

use crate::coordinates::Coordinate;
use crate::coordinates::Move;
use crate::coordinates::RowIndex;
use crate::coordinates::abs;
use crate::moves::MoveRecord;
use crate::moves::StateModel;
use crate::piece::Colour;
use crate::piece::PieceType;
use crate::rules::MoveErr;
use crate::rules::Outcome;
use crate::rules::apply_model;
use crate::rules::chain_ok;
use crate::rules::checkmate_spec;
use crate::rules::in_check;
use crate::rules::legal_moves_seq;
use crate::rules::lemma_chain_push;
use crate::rules::lemma_legal_moves_iff;
use crate::rules::lemma_undo_apply;
use crate::rules::model_ok;
use crate::rules::move_legal;
use crate::rules::move_outcome;
use crate::rules::pawn_home_row;
use crate::rules::pawns_off_home_moved;
use crate::rules::record_valid;
use crate::rules::undo_record;
use crate::grid::Square;

verus! {

/// Every legal move of a position stands in the full enumeration, and
/// everything enumerated is legal — so a move that `try_move` accepts is
/// always among `get_legal_moves`' results, and `try_move` succeeds on
/// every move `get_legal_moves` hands out.
pub proof fn lemma_legal_iff_enumerated(st: StateModel, m: Move)
    ensures
        legal_moves_seq(st).contains(m) <==> move_legal(st, m),
{
    lemma_legal_moves_iff(st, m);
}

/// A checkmated position stands in check and offers no legal move.
pub proof fn lemma_checkmate_no_moves(st: StateModel)
    requires
        checkmate_spec(st),
    ensures
        in_check(st, st.player),
        legal_moves_seq(st).len() == 0,
        forall|m: Move| !move_legal(st, m),
{
    assert forall|m: Move| !move_legal(st, m) by {
        lemma_legal_moves_iff(st, m);
    }
}

/// Committing any record inverts the side to move, and a second
/// inversion restores it.
pub proof fn lemma_player_alternates(st: StateModel, r: MoveRecord)
    ensures
        apply_model(st, r).player == st.player.spec_other(),
        st.player.spec_other().spec_other() == st.player,
{
}

/// Committing a valid record and then reversing it is the identity on
/// the board, and the snapshot a commit stores is the exact position the
/// matching undo restores — so any run of commits followed by as many
/// undos ends bit-for-bit where it began.
pub proof fn lemma_commit_then_undo(
    snaps: Seq<StateModel>,
    hist: Seq<MoveRecord>,
    start_ep: Option<Coordinate>,
    cur: StateModel,
    r: MoveRecord,
)
    requires
        chain_ok(snaps, hist, start_ep, cur),
        model_ok(cur),
        record_valid(cur.board, cur.player, r),
    ensures
        chain_ok(snaps.push(cur), hist.push(r), start_ep, apply_model(cur, r)),
        undo_record(apply_model(cur, r).board, cur.player, r) == cur.board,
        apply_model(cur, r).player.spec_other() == cur.player,
        snaps.push(cur).last() == cur,
        snaps.push(cur).drop_last() == snaps,
        hist.push(r).drop_last() == hist,
{
    lemma_chain_push(snaps, hist, start_ep, cur, r);
    lemma_undo_apply(cur.board, cur.player, r);
    assert(snaps.push(cur).drop_last() =~= snaps);
    assert(hist.push(r).drop_last() =~= hist);
}

/// Undoing the `k` most recent commits of a sound snapshot chain restores
/// exactly the position from `k` commits ago, with the history shortened
/// to match — the n-fold make/unmake identity.
pub proof fn lemma_chain_rewind(
    snaps: Seq<StateModel>,
    hist: Seq<MoveRecord>,
    start_ep: Option<Coordinate>,
    cur: StateModel,
    k: int,
)
    requires
        chain_ok(snaps, hist, start_ep, cur),
        0 <= k <= hist.len(),
    ensures
        chain_ok(
            snaps.take(hist.len() - k),
            hist.take(hist.len() - k),
            start_ep,
            if k == 0 {
                cur
            } else {
                snaps[hist.len() - k]
            },
        ),
    decreases k,
{
    let n = hist.len() as int;
    if k == 0 {
        assert(snaps.take(n) =~= snaps);
        assert(hist.take(n) =~= hist);
    } else {
        crate::rules::lemma_chain_pop(snaps, hist, start_ep, cur);
        assert(snaps.drop_last() =~= snaps.take(n - 1));
        assert(hist.drop_last() =~= hist.take(n - 1));
        lemma_chain_rewind(snaps.take(n - 1), hist.take(n - 1), start_ep, snaps[n - 1], k - 1);
        assert(snaps.take(n - 1).take(n - k) =~= snaps.take(n - k));
        assert(hist.take(n - 1).take(n - k) =~= hist.take(n - k));
        if k > 1 {
            assert(snaps.take(n - 1)[n - k] == snaps[n - k]);
        }
    }
}

/// A king's castle attempt — a two-column step along its rank — is
/// refused, with exactly that reason, when the king has moved, when no
/// piece stands on the starting-rook file, or when the piece there has
/// moved; the guard that the destination holds no piece of the mover must
/// not fire first.
pub proof fn lemma_castle_refusals(b: Seq<Square>, ep: Option<Coordinate>, m: Move, by: Colour)
    requires
        b.len() == 64,
        b[m.from.idx()] matches Some(p) && p.piece_type == PieceType::King && p.colour == by,
        m.d_row() == 0,
        m.d_column() == 2 || m.d_column() == -2,
        !(b[m.to.idx()] matches Some(t) && t.colour == by),
    ensures
        ({
            let p = b[m.from.idx()].unwrap();
            let rf = Coordinate {
                row: m.from.row,
                column: if m.d_column() == 2 {
                    crate::coordinates::ColumnIndex::H
                } else {
                    crate::coordinates::ColumnIndex::A
                },
            };
            &&& (p.has_moved ==> move_outcome(b, ep, m, by) == Outcome::Fail(
                MoveErr::CastleKingMoved,
            ))
            &&& (!p.has_moved && b[rf.idx()] is None ==> move_outcome(b, ep, m, by)
                == Outcome::Fail(MoveErr::CastleNoRook))
            &&& (!p.has_moved && (b[rf.idx()] matches Some(rk) && rk.has_moved) ==> move_outcome(
                b,
                ep,
                m,
                by,
            ) == Outcome::Fail(MoveErr::CastleRookMoved))
        }),
{
    broadcast use crate::coordinates::lemma_col_idx_inj;

    assert(m.from != m.to);
}

/// A pawn's diagonal forward step onto an empty square is admitted
/// exactly when that square is the current en-passant target, and then
/// takes the piece behind the target; otherwise it is refused as a
/// diagonal move that takes nothing. Presumes what holds of the target in
/// play: an enemy piece stands behind it.
pub proof fn lemma_en_passant_iff(b: Seq<Square>, ep: Option<Coordinate>, m: Move, by: Colour)
    requires
        b.len() == 64,
        b[m.from.idx()] matches Some(p) && p.piece_type == PieceType::Pawn && p.colour == by,
        m.d_column() == 1 || m.d_column() == -1,
        m.d_row() * by.row_increment() == 1,
        b[m.to.idx()] is None,
        ep == Some(m.to) ==> (b[(Coordinate { row: m.from.row, column: m.to.column }).idx()]
            matches Some(v) && v.colour == by.spec_other()),
    ensures
        (move_outcome(b, ep, m, by) matches Outcome::Record(_)) <==> ep == Some(m.to),
        ep == Some(m.to) ==> move_outcome(b, ep, m, by) == Outcome::Record(
            MoveRecord::TakeMove {
                m,
                taken: b[(Coordinate { row: m.from.row, column: m.to.column }).idx()].unwrap(),
                taken_from: Coordinate { row: m.from.row, column: m.to.column },
                first_move: !b[m.from.idx()].unwrap().has_moved,
            },
        ),
        ep != Some(m.to) ==> move_outcome(b, ep, m, by) == Outcome::Fail(
            MoveErr::PawnDiagonalNotTaking,
        ),
{
    broadcast use crate::coordinates::lemma_col_idx_inj;

    assert(m.from != m.to);
}

/// A non-null en-passant target left by a committed record stands on
/// rank 3 when White advanced and on rank 6 when Black advanced.
pub proof fn lemma_ep_target_rank(
    b: Seq<Square>,
    ep: Option<Coordinate>,
    m: Move,
    by: Colour,
    rec: MoveRecord,
    st: StateModel,
)
    requires
        b.len() == 64,
        pawns_off_home_moved(b),
        move_outcome(b, ep, m, by) == Outcome::Record(rec),
        st.board == b && st.player == by && st.ep == ep,
        apply_model(st, rec).ep matches Some(c),
    ensures
        apply_model(st, rec).ep matches Some(c) && (by == Colour::White ==> c.row == RowIndex::_3)
            && (by == Colour::Black ==> c.row == RowIndex::_6),
{
    broadcast use crate::coordinates::lemma_idx_inj;

    let b2 = apply_model(st, rec).board;
    match rec {
        MoveRecord::SimpleMove { m: mv, first_move } => {
            if b2[mv.to.idx()] matches Some(p) && p.piece_type == PieceType::Pawn && abs(
                mv.d_row(),
            ) == 2 {
                let src = b[m.from.idx()].unwrap();
                assert(mv == m);
                assert(b2[mv.to.idx()] == crate::piece::set_moved(b[m.from.idx()], true));
                assert(src.piece_type == PieceType::Pawn);
                assert(!src.has_moved);
                assert(m.from.idx() / 8 == m.from.row.idx()) by (nonlinear_arith)
                    requires
                        0 <= m.from.row.idx() < 8,
                        0 <= m.from.column.idx() < 8,
                        m.from.idx() == m.from.row.idx() * 8 + m.from.column.idx(),
                ;
                assert(m.from.row.idx() == pawn_home_row(by));
            }
        },
        _ => {},
    }
}

/// A double pawn advance leaves exactly the skipped square as the
/// en-passant target; committing any other record clears the target.
pub proof fn lemma_double_push_sets_target(st: StateModel, rec: MoveRecord)
    ensures
        (apply_model(st, rec).ep matches Some(c) ==> rec matches MoveRecord::SimpleMove { m, .. }
            && abs(m.d_row()) == 2 && c == (Coordinate {
            row: crate::coordinates::row_of(m.from.row.idx() + crate::coordinates::sgn(m.d_row())),
            column: m.to.column,
        })),
        (rec matches MoveRecord::SimpleMove { m, .. } ==> ((abs(m.d_row()) == 2 && (
        crate::rules::apply_record(st.board, st.player, rec)[m.to.idx()] matches Some(p)
            && p.piece_type == PieceType::Pawn)) ==> apply_model(st, rec).ep == Some(
            Coordinate {
                row: crate::coordinates::row_of(
                    m.from.row.idx() + crate::coordinates::sgn(m.d_row()),
                ),
                column: m.to.column,
            },
        ))),
        (rec matches MoveRecord::TakeMove { .. } ==> apply_model(st, rec).ep is None),
        (rec matches MoveRecord::CastleMove { .. } ==> apply_model(st, rec).ep is None),
        (rec matches MoveRecord::PawnPromotion { .. } ==> apply_model(st, rec).ep is None),
{
}

/// An en-passant capture — a take whose victim does not stand on the
/// destination — is admitted only when the destination is the current
/// en-passant target, which a commit leaves set for exactly one ply.
pub proof fn lemma_en_passant_needs_target(
    b: Seq<Square>,
    ep: Option<Coordinate>,
    m: Move,
    by: Colour,
    rec: MoveRecord,
)
    requires
        b.len() == 64,
        move_outcome(b, ep, m, by) == Outcome::Record(rec),
        rec matches MoveRecord::TakeMove { m: mv, taken_from, .. } && taken_from != mv.to,
    ensures
        ep == Some(m.to),
{
    broadcast use crate::coordinates::lemma_row_idx_inj;
    broadcast use crate::coordinates::lemma_col_idx_inj;

}

/// A pawn stepping onto the opposing home rank, other than by an
/// en-passant capture, is promoted, and to a queen.
pub proof fn lemma_promotion_to_queen(
    b: Seq<Square>,
    ep: Option<Coordinate>,
    m: Move,
    by: Colour,
    rec: MoveRecord,
)
    requires
        b.len() == 64,
        pawns_off_home_moved(b),
        move_outcome(b, ep, m, by) == Outcome::Record(rec),
        b[m.from.idx()] matches Some(p) && p.piece_type == PieceType::Pawn,
        m.to.row == by.spec_other().spec_home_rank(),
        !(b[m.to.idx()] is None && ep == Some(m.to)),
    ensures
        rec matches MoveRecord::PawnPromotion { to, .. } && to == PieceType::Queen,
{
}

/// A king may not castle after it has moved, out of check, through an
/// attacked square, or with a rook that has moved.
pub proof fn lemma_castle_prohibitions(st: StateModel, m: Move, rec: MoveRecord)
    requires
        st.board.len() == 64,
        move_outcome(st.board, st.ep, m, st.player) == Outcome::Record(rec),
        rec matches MoveRecord::CastleMove { .. },
    ensures
        (st.board[m.from.idx()] matches Some(k) && !k.has_moved),
        (rec matches MoveRecord::CastleMove { rook_move, .. } && st.board[rook_move.from.idx()]
            matches Some(rk) && !rk.has_moved),
        in_check(st, st.player) ==> !move_legal(st, m),
        (rec matches MoveRecord::CastleMove { king_move, .. } && (exists|i: int|
            0 <= i < king_move.between().len() && in_check(
                apply_model(
                    st,
                    MoveRecord::SimpleMove {
                        m: Move { from: king_move.from, to: king_move.between()[i] },
                        first_move: true,
                    },
                ),
                st.player,
            ))) ==> !move_legal(st, m),
{
}

} // verus!
