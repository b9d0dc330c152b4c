//! The board state: side to move, board, move history and en-passant
//! target, with the rule-enforcing operations on it.

use vstd::prelude::*;
use vstd::pervasive::unreached;

use crate::coordinates::Coordinate;
use crate::coordinates::Move;
use crate::coordinates::square_of;
use crate::grid::Board;
use crate::grid::board_iterator;
use crate::grid::has_no_pieces_between;
use crate::grid::initial_square;
use crate::moves::MoveRecord;
use crate::moves::MoveRecords;
use crate::moves::StateModel;
use crate::moves::ep_spec;
use crate::piece::Colour;
use crate::piece::Piece;
use crate::piece::PieceType;
use crate::piece::moved;
use crate::rules::Outcome;
use crate::rules::apply_model;
use crate::rules::apply_record;
use crate::rules::chain_ok;
use crate::rules::lemma_chain_pop;
use crate::rules::lemma_chain_push;
use crate::rules::blocked_message;
use crate::rules::castle_outcome;
use crate::rules::check_move_spec;
use crate::rules::pawn_outcome;
use crate::rules::simple_or_take;
use crate::rules::err_text;
use crate::rules::attacks_square;
use crate::rules::checkmate_spec;
use crate::rules::first_king_at;
use crate::rules::has_king;
use crate::rules::in_check;
use crate::rules::is_king_at;
use crate::rules::king_square;
use crate::rules::legal_from_upto;
use crate::rules::legal_moves_from_seq;
use crate::rules::legal_moves_seq;
use crate::rules::legal_upto;
use crate::rules::lemma_apply_keeps_king;
use crate::rules::lemma_apply_model_ok;
use crate::rules::move_legal;
use crate::rules::would_check;
use crate::rules::lemma_outcome_valid;
use crate::rules::lemma_undo_apply;
use crate::rules::model_ok;
use crate::rules::move_outcome;
use crate::rules::record_valid;
use crate::rules::undo_record;

verus! {

/// The central object of the game: current side to move, the board, the
/// stack of committed move records, and the current en-passant target.
pub struct BoardState {
    pub current_player: Colour,
    pub board: Board,
    pub moves: MoveRecords,
    pub en_passant_availability: Option<Coordinate>,
}

impl BoardState {
    /// This position as spec values.
    pub open spec fn model(self) -> StateModel {
        StateModel {
            player: self.current_player,
            board: self.board@,
            ep: self.en_passant_availability,
        }
    }

    pub open spec fn wf(self) -> bool {
        &&& model_ok(self.model())
        &&& chain_ok(
            self.moves.snaps(),
            self.moves.history(),
            self.moves.start_ep(),
            self.model(),
        )
    }

    /// The standard initial position, White to move.
    pub fn new() -> (s: BoardState)
        ensures
            s.wf(),
            s.current_player == Colour::White,
            forall|i: int| 0 <= i < 64 ==> s.board@[i] == initial_square(i),
            s.en_passant_availability is None,
            s.moves.history() == Seq::<MoveRecord>::empty(),
            s.moves.start_ep() == None::<Coordinate>,
    {
        let s = BoardState {
            current_player: Colour::White,
            board: Board::new(),
            moves: MoveRecords::new(None),
            en_passant_availability: None,
        };
        proof {
            assert(crate::rules::pawns_off_home_moved(s.board@)) by {
                assert forall|i: int| 0 <= i < 64 implies match #[trigger] s.board@[i] {
                    Some(p) => p.piece_type == PieceType::Pawn && i / 8 != crate::rules::pawn_home_row(
                        p.colour,
                    ) ==> p.has_moved,
                    None => true,
                } by {
                    assert(s.board@[i] == initial_square(i));
                }
            }
        }
        s
    }

    pub fn get_next_player(&self) -> (c: Colour)
        ensures
            c == self.current_player,
    {
        self.current_player
    }

    pub fn get_other_player(&self) -> (c: Colour)
        ensures
            c == self.current_player.spec_other(),
    {
        self.current_player.other()
    }

    fn recompute_en_passant_availability(&mut self)
        requires
            old(self).board.wf(),
        ensures
            final(self).board == old(self).board,
            final(self).current_player == old(self).current_player,
            final(self).moves == old(self).moves,
            final(self).en_passant_availability == ep_spec(
                old(self).board@,
                old(self).moves.history(),
                old(self).moves.start_ep(),
            ),
    {
        self.en_passant_availability = self.moves.get_en_passant_availability(&self.board);
    }

    /// Commit a record: move the pieces it names, marking them moved,
    /// flip the side to move, push the record, and recompute the
    /// en-passant target.
    #[verifier::rlimit(80)]
    pub fn do_move(&mut self, record: MoveRecord)
        requires
            old(self).wf(),
            record_valid(old(self).board@, old(self).current_player, record),
        ensures
            final(self).wf(),
            final(self).model() == apply_model(old(self).model(), record),
            final(self).moves.history() == old(self).moves.history().push(record),
            final(self).moves.snaps() == old(self).moves.snaps().push(old(self).model()),
            final(self).moves.start_ep() == old(self).moves.start_ep(),
    {
        let ghost pre = self.model();
        match record {
            MoveRecord::SimpleMove { m, .. } => {
                let p = self.board.at(m.from);
                self.board.set(m.from, None);
                self.board.set(m.to, moved(p, true));
            },
            MoveRecord::TakeMove { m, taken_from, .. } => {
                proof {
                    crate::coordinates::lemma_idx_inj(taken_from, m.from);
                    crate::coordinates::lemma_idx_inj(taken_from, m.to);
                    crate::coordinates::lemma_idx_inj(m.from, m.to);
                }
                self.board.set(taken_from, None);
                let p = self.board.at(m.from);
                self.board.set(m.from, None);
                self.board.set(m.to, moved(p, true));
            },
            MoveRecord::CastleMove { king_move, rook_move } => {
                proof {
                    crate::coordinates::lemma_idx_inj(king_move.from, rook_move.from);
                    crate::coordinates::lemma_idx_inj(king_move.from, rook_move.to);
                    crate::coordinates::lemma_idx_inj(king_move.to, rook_move.from);
                    crate::coordinates::lemma_idx_inj(king_move.to, rook_move.to);
                    crate::coordinates::lemma_idx_inj(king_move.from, king_move.to);
                    crate::coordinates::lemma_idx_inj(rook_move.from, rook_move.to);
                }
                let k = self.board.at(king_move.from);
                self.board.set(king_move.from, None);
                self.board.set(king_move.to, moved(k, true));
                let r = self.board.at(rook_move.from);
                self.board.set(rook_move.from, None);
                self.board.set(rook_move.to, moved(r, true));
            },
            MoveRecord::PawnPromotion { m, to, .. } => {
                self.board.set(m.from, None);
                self.board.set(
                    m.to,
                    Some(Piece { piece_type: to, colour: self.current_player, has_moved: true }),
                );
            },
        }
        assert(self.board@ =~= apply_record(pre.board, pre.player, record));
        self.current_player = self.current_player.other();
        self.moves.record_move(record, Ghost(pre));
        self.recompute_en_passant_availability();
        proof {
            lemma_chain_push(
                old(self).moves.snaps(),
                old(self).moves.history(),
                old(self).moves.start_ep(),
                pre,
                record,
            );
            assert(self.model() =~= apply_model(pre, record));
        }
    }

    /// Reverse the most recent record: restore the moved pieces and any
    /// captured piece, restore their `has_moved` flags, flip the side to
    /// move back, and recompute the en-passant target. The position is
    /// exactly the one the record was committed from.
    #[verifier::rlimit(80)]
    pub fn undo_move(&mut self)
        requires
            old(self).wf(),
            old(self).moves.history().len() > 0,
        ensures
            final(self).wf(),
            final(self).model() == old(self).moves.snaps().last(),
            final(self).moves.history() == old(self).moves.history().drop_last(),
            final(self).moves.snaps() == old(self).moves.snaps().drop_last(),
            final(self).moves.start_ep() == old(self).moves.start_ep(),
    {
        let ghost pre = self.model();
        let ghost snap = self.moves.snaps().last();
        let ghost record_g = old(self).moves.history().last();
        proof {
            lemma_chain_pop(
                old(self).moves.snaps(),
                old(self).moves.history(),
                old(self).moves.start_ep(),
                pre,
            );
            lemma_undo_apply(snap.board, snap.player, record_g);
        }
        let record = match self.moves.pop_last_move() {
            Some(r) => r,
            None => unreached(),
        };
        match record {
            MoveRecord::SimpleMove { m, first_move } => {
                proof {
                    crate::coordinates::lemma_idx_inj(m.from, m.to);
                }
                let p = self.board.at(m.to);
                self.board.set(m.to, None);
                self.board.set(m.from, moved(p, !first_move));
            },
            MoveRecord::TakeMove { m, taken, taken_from, first_move } => {
                proof {
                    crate::coordinates::lemma_idx_inj(taken_from, m.from);
                    crate::coordinates::lemma_idx_inj(taken_from, m.to);
                    crate::coordinates::lemma_idx_inj(m.from, m.to);
                }
                let p = self.board.at(m.to);
                self.board.set(m.to, None);
                self.board.set(m.from, moved(p, !first_move));
                self.board.set(taken_from, Some(taken));
            },
            MoveRecord::CastleMove { king_move, rook_move } => {
                proof {
                    crate::coordinates::lemma_idx_inj(king_move.from, rook_move.from);
                    crate::coordinates::lemma_idx_inj(king_move.from, rook_move.to);
                    crate::coordinates::lemma_idx_inj(king_move.to, rook_move.from);
                    crate::coordinates::lemma_idx_inj(king_move.to, rook_move.to);
                    crate::coordinates::lemma_idx_inj(king_move.from, king_move.to);
                    crate::coordinates::lemma_idx_inj(rook_move.from, rook_move.to);
                }
                let r = self.board.at(rook_move.to);
                self.board.set(rook_move.to, None);
                self.board.set(rook_move.from, moved(r, false));
                let k = self.board.at(king_move.to);
                self.board.set(king_move.to, None);
                self.board.set(king_move.from, moved(k, false));
            },
            MoveRecord::PawnPromotion { m, taken, .. } => {
                proof {
                    crate::coordinates::lemma_idx_inj(m.from, m.to);
                }
                self.board.set(m.to, taken);
                let restored = self.current_player.other();
                self.board.set(
                    m.from,
                    Some(
                        Piece { piece_type: PieceType::Pawn, colour: restored, has_moved: true },
                    ),
                );
            },
        }
        assert(self.board@ =~= undo_record(pre.board, snap.player, record_g));
        assert(self.board@ == snap.board);
        self.current_player = self.current_player.other();
        self.recompute_en_passant_availability();
        proof {
            assert(self.model() =~= snap);
        }
    }
}

/// Two states agree on every observable component: board, side to move,
/// en-passant target, history and ghost snapshots.
pub open spec fn same_position(a: BoardState, b: BoardState) -> bool {
    &&& a.board@ == b.board@
    &&& a.current_player == b.current_player
    &&& a.en_passant_availability == b.en_passant_availability
    &&& a.moves.history() == b.moves.history()
    &&& a.moves.snaps() == b.moves.snaps()
    &&& a.moves.start_ep() == b.moves.start_ep()
}

impl BoardState {
    /// The square of the first king of `player` in board order.
    fn find_king(&self, player: Colour) -> (r: Option<Coordinate>)
        requires
            self.board.wf(),
        ensures
            has_king(self.board@, player) ==> r == Some(king_square(self.board@, player)),
            !has_king(self.board@, player) ==> r is None,
    {
        let squares = board_iterator();
        let mut i: usize = 0;
        while i < 64
            invariant
                self.board.wf(),
                squares@.len() == 64,
                forall|j: int| 0 <= j < 64 ==> squares@[j] == square_of(j),
                0 <= i <= 64,
                forall|j: int| 0 <= j < i ==> !is_king_at(self.board@, j, player),
                first_king_at(self.board@, player, 0) == first_king_at(
                    self.board@,
                    player,
                    i as int,
                ),
            decreases 64 - i,
        {
            let c = squares[i];
            proof {
                crate::coordinates::lemma_idx_of_square(i as int);
            }
            match self.board.at(c) {
                Some(p) => {
                    if matches!(p.piece_type, PieceType::King) && p.colour == player {
                        assert(is_king_at(self.board@, i as int, player));
                        assert(first_king_at(self.board@, player, i as int) == i);
                        return Some(c);
                    }
                },
                None => {},
            }
            assert(!is_king_at(self.board@, i as int, player));
            i = i + 1;
        }
        assert(!has_king(self.board@, player));
        None
    }

    /// Whether `player` has a king on the board.
    pub fn has_king_on_board(&self, player: Colour) -> (r: bool)
        requires
            self.board.wf(),
        ensures
            r == has_king(self.board@, player),
    {
        self.find_king(player).is_some()
    }

    /// Whether some piece of `by` has a pseudo-legal move onto `to`.
    #[verifier::rlimit(100)]
    #[verifier::spinoff_prover]
    fn has_moves_to(&self, to: Coordinate, by: Colour) -> (r: bool)
        requires
            self.board.wf(),
        ensures
            r == attacks_square(self.board@, self.en_passant_availability, to, by),
    {
        let squares = board_iterator();
        let mut i: usize = 0;
        while i < 64
            invariant
                self.board.wf(),
                squares@.len() == 64,
                forall|j: int| 0 <= j < 64 ==> squares@[j] == square_of(j),
                0 <= i <= 64,
                forall|j: int|
                    0 <= j < i ==> !((#[trigger] move_outcome(
                        self.board@,
                        self.en_passant_availability,
                        Move { from: square_of(j), to },
                        by,
                    )) matches Outcome::Record(_)),
            decreases 64 - i,
        {
            let from = squares[i];
            match self.get_move_result(Move { from, to }, by) {
                Ok(_) => {
                    proof {
                        assert(from == square_of(i as int));
                        assert((move_outcome(
                            self.board@,
                            self.en_passant_availability,
                            Move { from: square_of(i as int), to },
                            by,
                        )) matches Outcome::Record(_));
                        assert(attacks_square(self.board@, self.en_passant_availability, to, by));
                    }
                    return true;
                },
                Err(_) => {},
            }
            i = i + 1;
        }
        false
    }

    /// Whether `player`'s king square is reachable by a pseudo-legal move
    /// of the opponent. The board must hold a king of that colour.
    pub fn is_in_check(&self, player: Colour) -> (r: bool)
        requires
            self.board.wf(),
            has_king(self.board@, player),
        ensures
            r == in_check(self.model(), player),
    {
        let king_coordinates = match self.find_king(player) {
            Some(c) => c,
            None => unreached(),
        };
        self.has_moves_to(king_coordinates, player.other())
    }

    /// Whether committing `record` would leave `by`'s king in check; a
    /// castle is also refused when the king starts in check or passes
    /// through an attacked square. The state is left exactly as found.
    #[verifier::rlimit(100)]
    #[verifier::spinoff_prover]
    fn would_be_check(&mut self, record: &MoveRecord, by: Colour) -> (r: bool)
        requires
            old(self).wf(),
            by == old(self).current_player,
            record_valid(old(self).board@, by, *record),
            has_king(old(self).board@, by),
        ensures
            same_position(*final(self), *old(self)),
            final(self).wf(),
            r == would_check(old(self).model(), *record),
    {
        let ghost st0 = self.model();
        if let MoveRecord::CastleMove { king_move, .. } = record {
            let king_move = *king_move;
            if self.is_in_check(by) {
                return true;
            }
            let squares = king_move.squares_between();
            let mut i: usize = 0;
            while i < squares.len()
                invariant
                    same_position(*self, *old(self)),
                    self.wf(),
                    by == self.current_player,
                    has_king(self.board@, by),
                    record_valid(self.board@, by, *record),
                    st0 == self.model(),
                    *record matches MoveRecord::CastleMove { king_move: km, .. } && km
                        == king_move,
                    squares@ == king_move.between(),
                    0 <= i <= squares@.len(),
                    !in_check(st0, by),
                    forall|j: int|
                        0 <= j < i ==> !in_check(
                            apply_model(
                                st0,
                                MoveRecord::SimpleMove {
                                    m: Move {
                                        from: king_move.from,
                                        to: #[trigger] king_move.between()[j],
                                    },
                                    first_move: true,
                                },
                            ),
                            by,
                        ),
                decreases squares@.len() - i,
            {
                let step = MoveRecord::SimpleMove {
                    m: Move { from: king_move.from, to: squares[i] },
                    first_move: true,
                };
                proof {
                    assert(self.board@[king_move.between()[i as int].idx()] is None);
                    assert(record_valid(self.board@, by, step));
                    lemma_apply_keeps_king(self.board@, by, step);
                }
                self.do_move(step);
                let c = self.is_in_check(by);
                self.undo_move();
                proof {
                    assert(self.moves.history() =~= old(self).moves.history());
                    assert(self.moves.snaps() =~= old(self).moves.snaps());
                }
                if c {
                    assert(in_check(
                        apply_model(
                            st0,
                            MoveRecord::SimpleMove {
                                m: Move { from: king_move.from, to: king_move.between()[i as int] },
                                first_move: true,
                            },
                        ),
                        by,
                    ));
                    assert(would_check(st0, *record));
                    return true;
                }
                i = i + 1;
            }
        }
        proof {
            lemma_apply_keeps_king(self.board@, by, *record);
        }
        self.do_move(*record);
        let result = self.is_in_check(by);
        self.undo_move();
        proof {
            assert(self.moves.history() =~= old(self).moves.history());
            assert(self.moves.snaps() =~= old(self).moves.snaps());
        }
        result
    }

    /// Evaluate and, when it is legal, commit the requested move of the
    /// current player; otherwise report the violated rule and leave the
    /// state untouched.
    pub fn try_move(&mut self, m: Move) -> (r: Result<(), String>)
        requires
            old(self).wf(),
            has_king(old(self).board@, old(self).current_player),
        ensures
            final(self).wf(),
            (r is Ok) == move_legal(old(self).model(), m),
            match r {
                Ok(()) => {
                    &&& move_outcome(
                        old(self).board@,
                        old(self).en_passant_availability,
                        m,
                        old(self).current_player,
                    ) matches Outcome::Record(rec)
                    &&& final(self).model() == apply_model(old(self).model(), rec)
                    &&& final(self).moves.history() == old(self).moves.history().push(rec)
                    &&& final(self).moves.snaps() == old(self).moves.snaps().push(
                        old(self).model(),
                    )
                    &&& final(self).moves.start_ep() == old(self).moves.start_ep()
                },
                Err(msg) => {
                    &&& same_position(*final(self), *old(self))
                    &&& (move_outcome(
                        old(self).board@,
                        old(self).en_passant_availability,
                        m,
                        old(self).current_player,
                    ) matches Outcome::Fail(k) ==> msg@ == err_text(k))
                    &&& (move_outcome(
                        old(self).board@,
                        old(self).en_passant_availability,
                        m,
                        old(self).current_player,
                    ) matches Outcome::Record(rec) ==> would_check(old(self).model(), rec) && msg@
                        == "Cannot move here: Check"@)
                },
            },
    {
        let current_player = self.get_next_player();
        let record = match self.get_move_result(m, current_player) {
            Ok(rec) => rec,
            Err(e) => {
                return Err(e);
            },
        };
        proof {
            lemma_outcome_valid(
                self.board@,
                self.en_passant_availability,
                m,
                current_player,
                record,
            );
        }
        if self.would_be_check(&record, current_player) {
            Err(String::from_str("Cannot move here: Check"))
        } else {
            self.do_move(record);
            Ok(())
        }
    }

    /// Whether the requested move of the current player is legal, with
    /// the violated rule when it is not; the state is left as found.
    pub fn is_legal_move(&mut self, m: Move) -> (r: Result<(), String>)
        requires
            old(self).wf(),
            has_king(old(self).board@, old(self).current_player),
        ensures
            same_position(*final(self), *old(self)),
            final(self).wf(),
            (r is Ok) == move_legal(old(self).model(), m),
            (r matches Err(msg) ==> {
                &&& (move_outcome(
                    old(self).board@,
                    old(self).en_passant_availability,
                    m,
                    old(self).current_player,
                ) matches Outcome::Fail(k) ==> msg@ == err_text(k))
                &&& (move_outcome(
                    old(self).board@,
                    old(self).en_passant_availability,
                    m,
                    old(self).current_player,
                ) matches Outcome::Record(rec) ==> would_check(old(self).model(), rec) && msg@
                    == "Cannot move here: Check"@)
            }),
    {
        let player = self.get_next_player();
        match self.get_move_result(m, player) {
            Err(e) => Err(e),
            Ok(record) => {
                proof {
                    lemma_outcome_valid(
                        self.board@,
                        self.en_passant_availability,
                        m,
                        player,
                        record,
                    );
                }
                if !self.would_be_check(&record, player) {
                    Ok(())
                } else {
                    Err(String::from_str("Cannot move here: Check"))
                }
            },
        }
    }

    /// All legal moves of the current player out of `from`, destinations
    /// in board order; the state is left as found. Only the side to move
    /// can be asked: the make/test/unmake probe commits candidate records,
    /// and a promotion committed for the other side would not reverse to
    /// the same position.
    #[verifier::rlimit(100)]
    #[verifier::spinoff_prover]
    pub fn get_legal_moves_from(&mut self, from: Coordinate, by: Colour) -> (r: Vec<Move>)
        requires
            old(self).wf(),
            by == old(self).current_player,
            has_king(old(self).board@, by),
        ensures
            same_position(*final(self), *old(self)),
            final(self).wf(),
            r@ == legal_moves_from_seq(old(self).model(), from),
    {
        let ghost st0 = self.model();
        let squares = board_iterator();
        let mut result: Vec<Move> = Vec::new();
        let mut i: usize = 0;
        while i < 64
            invariant
                same_position(*self, *old(self)),
                self.wf(),
                by == self.current_player,
                has_king(self.board@, by),
                st0 == self.model(),
                squares@.len() == 64,
                forall|j: int| 0 <= j < 64 ==> squares@[j] == square_of(j),
                0 <= i <= 64,
                result@ == legal_from_upto(st0, from, i as int),
            decreases 64 - i,
        {
            let to = squares[i];
            let mv = Move { from, to };
            match self.get_move_result(mv, by) {
                Ok(record) => {
                    proof {
                        lemma_outcome_valid(
                            self.board@,
                            self.en_passant_availability,
                            mv,
                            by,
                            record,
                        );
                    }
                    if !self.would_be_check(&record, by) {
                        result.push(mv);
                    }
                },
                Err(_) => {},
            }
            i = i + 1;
        }
        result
    }

    /// All legal moves of the current player, origins in board order and
    /// destinations in board order within each origin; the state is left
    /// as found. Only the side to move can be asked, as for the per-origin
    /// enumeration.
    pub fn get_legal_moves(&mut self, by: Colour) -> (r: Vec<Move>)
        requires
            old(self).wf(),
            by == old(self).current_player,
            has_king(old(self).board@, by),
        ensures
            same_position(*final(self), *old(self)),
            final(self).wf(),
            r@ == legal_moves_seq(old(self).model()),
    {
        let ghost st0 = self.model();
        let squares = board_iterator();
        let mut result: Vec<Move> = Vec::new();
        let mut i: usize = 0;
        while i < 64
            invariant
                same_position(*self, *old(self)),
                self.wf(),
                by == self.current_player,
                has_king(self.board@, by),
                st0 == self.model(),
                squares@.len() == 64,
                forall|j: int| 0 <= j < 64 ==> squares@[j] == square_of(j),
                0 <= i <= 64,
                result@ == legal_upto(st0, i as int),
            decreases 64 - i,
        {
            let from = squares[i];
            let mut sub = self.get_legal_moves_from(from, by);
            result.append(&mut sub);
            i = i + 1;
        }
        result
    }

    /// The legal moves of the current player grouped by origin, in board
    /// order, origins without moves left out; the state is left as found.
    pub fn get_legal_moves_map(&mut self, by: Colour) -> (r: Vec<(Coordinate, Vec<Coordinate>)>)
        requires
            old(self).wf(),
            by == old(self).current_player,
            has_king(old(self).board@, by),
        ensures
            same_position(*final(self), *old(self)),
            final(self).wf(),
            r@.len() == legal_map_spec(old(self).model(), 64).len(),
            forall|i: int|
                0 <= i < r@.len() ==> (#[trigger] r@[i]).0 == legal_map_spec(
                    old(self).model(),
                    64,
                )[i].0 && r@[i].1@ == legal_map_spec(old(self).model(), 64)[i].1,
    {
        let ghost st0 = self.model();
        let squares = board_iterator();
        let mut result: Vec<(Coordinate, Vec<Coordinate>)> = Vec::new();
        let mut i: usize = 0;
        while i < 64
            invariant
                same_position(*self, *old(self)),
                self.wf(),
                by == self.current_player,
                has_king(self.board@, by),
                st0 == self.model(),
                squares@.len() == 64,
                forall|j: int| 0 <= j < 64 ==> squares@[j] == square_of(j),
                0 <= i <= 64,
                result@.len() == legal_map_spec(st0, i as int).len(),
                forall|j: int|
                    0 <= j < result@.len() ==> (#[trigger] result@[j]).0 == legal_map_spec(
                        st0,
                        i as int,
                    )[j].0 && result@[j].1@ == legal_map_spec(st0, i as int)[j].1,
            decreases 64 - i,
        {
            let from = squares[i];
            let sub = self.get_legal_moves_from(from, by);
            let ghost prev = legal_map_spec(st0, i as int);
            let ghost next = legal_map_spec(st0, i + 1);
            let ghost tos_spec = targets_of(st0, square_of(i as int));
            if sub.len() > 0 {
                let mut tos: Vec<Coordinate> = Vec::new();
                let mut k: usize = 0;
                while k < sub.len()
                    invariant
                        0 <= k <= sub@.len(),
                        tos@.len() == k,
                        forall|j: int| 0 <= j < k ==> tos@[j] == sub@[j].to,
                    decreases sub@.len() - k,
                {
                    tos.push(sub[k].to);
                    k = k + 1;
                }
                proof {
                    assert(tos_spec.len() == sub@.len());
                    assert forall|j: int| 0 <= j < tos@.len() implies tos@[j] == tos_spec[j] by {
                        assert(tos_spec[j] == sub@[j].to);
                    }
                    assert(tos@ =~= tos_spec);
                    assert(next == prev.push((square_of(i as int), tos_spec)));
                }
                let ghost res0 = result@;
                result.push((from, tos));
                proof {
                    assert forall|j: int| 0 <= j < result@.len() implies (#[trigger] result@[j]).0
                        == next[j].0 && result@[j].1@ == next[j].1 by {
                        if j < prev.len() {
                            assert(result@[j] == res0[j]);
                            assert(res0[j].0 == prev[j].0 && (res0[j].1)@ == prev[j].1);
                            assert(next[j] == prev[j]);
                        } else {
                            assert(result@[j] == (from, tos));
                            assert(next[j] == (square_of(i as int), tos_spec));
                        }
                    }
                }
            } else {
                proof {
                    assert(tos_spec.len() == 0);
                    assert(next == prev);
                }
            }
            i = i + 1;
        }
        result
    }

    /// The current player stands in check and has no legal move; the
    /// state is left as found.
    pub fn is_checkmate(&mut self) -> (r: bool)
        requires
            old(self).wf(),
            has_king(old(self).board@, old(self).current_player),
        ensures
            same_position(*final(self), *old(self)),
            final(self).wf(),
            r == checkmate_spec(old(self).model()),
    {
        let player = self.get_next_player();
        if !self.is_in_check(player) {
            return false;
        }
        let legal = self.get_legal_moves(player);
        legal.len() == 0
    }
}

/// The legal moves grouped by origin among the first `n` squares, each
/// origin with its destination list, origins without moves left out.
pub open spec fn legal_map_spec(st: StateModel, n: int) -> Seq<(Coordinate, Seq<Coordinate>)>
    decreases n,
{
    if n <= 0 {
        Seq::empty()
    } else {
        let prev = legal_map_spec(st, n - 1);
        let from = square_of(n - 1);
        let tos = targets_of(st, from);
        if tos.len() > 0 {
            prev.push((from, tos))
        } else {
            prev
        }
    }
}

/// The destinations of the legal moves out of `from`, in board order.
pub open spec fn targets_of(st: StateModel, from: Coordinate) -> Seq<Coordinate> {
    legal_moves_from_seq(st, from).map_values(|mv: Move| mv.to)
}

/// The pawn arm of the rules, against `pawn_outcome`.
fn pawn_move(
    board: &Board,
    ep: Option<Coordinate>,
    m: Move,
    by: Colour,
    p: Piece,
    dest: Option<Piece>,
    d_row: i8,
    d_column: i8,
) -> (r: Result<MoveRecord, String>)
    requires
        board.wf(),
        p.piece_type == PieceType::Pawn,
        d_row == m.d_row(),
        d_column == m.d_column(),
        dest == board@[m.to.idx()],
    ensures
        match r {
            Ok(rec) => pawn_outcome(board@, ep, m, by, p, dest) == Outcome::Record(rec),
            Err(msg) => pawn_outcome(board@, ep, m, by, p, dest) matches Outcome::Fail(k) && msg@
                == err_text(k),
        },
{
    let row_increment: i8 = if matches!(by, Colour::White) {
        -1
    } else {
        1
    };
    let first_move = !p.has_moved;
    let end_row = by.other().home_rank();
    if d_column == 0 {
        match dest {
            Some(_) => Err(String::from_str("Cannot take with Pawn unless diagonally")),
            None => {
                let fwd = d_row * row_increment;
                if fwd == 1 {
                    if m.to.row == end_row {
                        Ok(MoveRecord::PawnPromotion { m, to: PieceType::Queen, taken: None })
                    } else {
                        Ok(MoveRecord::SimpleMove { m, first_move })
                    }
                } else if fwd == 2 {
                    let in_between = Coordinate {
                        row: if matches!(by, Colour::White) {
                            crate::coordinates::RowIndex::_3
                        } else {
                            crate::coordinates::RowIndex::_6
                        },
                        column: m.from.column,
                    };
                    if first_move {
                        if board.at(in_between).is_none() {
                            Ok(MoveRecord::SimpleMove { m, first_move })
                        } else {
                            Err(String::from_str("Cannot jump with Pawn"))
                        }
                    } else {
                        Err(String::from_str("Cannot double move Pawn unless on start row"))
                    }
                } else if 3 <= fwd && fwd <= 7 {
                    Err(String::from_str("Cannot move Pawn more than two squares"))
                } else {
                    Err(String::from_str("Cannot move Pawn backwards"))
                }
            },
        }
    } else if d_column == 1 || d_column == -1 {
        let fwd = d_row * row_increment;
        if fwd == 0 {
            Err(String::from_str("Cannot move Pawn horizontally"))
        } else if fwd == 1 {
            match dest {
                Some(taken) => {
                    if m.to.row == end_row {
                        Ok(MoveRecord::PawnPromotion { m, to: PieceType::Queen, taken: Some(taken) })
                    } else {
                        Ok(MoveRecord::TakeMove { m, taken, taken_from: m.to, first_move })
                    }
                },
                None => {
                    if en_passant_matches(ep, m.to) {
                        let taken_from = Coordinate { row: m.from.row, column: m.to.column };
                        match board.at(taken_from) {
                            Some(victim) => {
                                if victim.colour == by.other() {
                                    Ok(MoveRecord::TakeMove { m, taken: victim, taken_from, first_move })
                                } else {
                                    Err(
                                        String::from_str(
                                            "Cannot move Pawn diagonally unless taking",
                                        ),
                                    )
                                }
                            },
                            None => Err(
                                String::from_str("Cannot move Pawn diagonally unless taking"),
                            ),
                        }
                    } else {
                        Err(String::from_str("Cannot move Pawn diagonally unless taking"))
                    }
                },
            }
        } else if 2 <= fwd && fwd <= 6 {
            Err(String::from_str("Cannot move Pawn here: too far"))
        } else {
            Err(String::from_str("Cannot move Pawn here: must move forwards"))
        }
    } else {
        if d_row == 0 {
            Err(String::from_str("Cannot move Pawn horizontally"))
        } else {
            Err(String::from_str("Cannot move Pawn this way"))
        }
    }
}

/// Whether the current en-passant target is exactly `to`.
fn en_passant_matches(ep: Option<Coordinate>, to: Coordinate) -> (r: bool)
    ensures
        r == (ep == Some(to)),
{
    match ep {
        Some(c) => c == to,
        None => false,
    }
}

/// The castling arm of the king rules, against `castle_outcome`.
fn castle_move(
    board: &Board,
    m: Move,
    by: Colour,
    p: Piece,
    dest: Option<Piece>,
    d_column: i8,
) -> (r: Result<MoveRecord, String>)
    requires
        board.wf(),
        d_column == m.d_column(),
        d_column == 2 || d_column == -2,
        dest == board@[m.to.idx()],
    ensures
        match r {
            Ok(rec) => castle_outcome(board@, m, by, p, dest, d_column as int) == Outcome::Record(
                rec,
            ),
            Err(msg) => castle_outcome(board@, m, by, p, dest, d_column as int) matches
                Outcome::Fail(k) && msg@ == err_text(k),
        },
{
    if p.has_moved {
        return Err(String::from_str("Cannot castle: King has been moved"));
    }
    let rook_coordinates = Coordinate {
        row: m.from.row,
        column: if d_column == 2 {
            crate::coordinates::ColumnIndex::H
        } else {
            crate::coordinates::ColumnIndex::A
        },
    };
    let rook = match board.at(rook_coordinates) {
        Some(piece) => piece,
        None => {
            return Err(String::from_str("Cannot castle: no Rook found"));
        },
    };
    if rook.has_moved {
        return Err(String::from_str("Cannot castle this way: target Rook has been moved"));
    }
    if dest.is_some() {
        return Err(String::from_str("Cannot castle: cannot take piece during castle"));
    }
    let rook_to = Coordinate {
        row: rook_coordinates.row,
        column: if d_column == 2 {
            crate::coordinates::ColumnIndex::F
        } else {
            crate::coordinates::ColumnIndex::D
        },
    };
    if m.to == rook_to {
        return Err(
            String::from_str("Cannot castle here: King and Rook would land on the same square"),
        );
    }
    let path = Move { from: m.from, to: rook_coordinates };
    match has_no_pieces_between(board, &path) {
        Ok(()) => Ok(
            MoveRecord::CastleMove {
                king_move: m,
                rook_move: Move { from: rook_coordinates, to: rook_to },
            },
        ),
        Err((piece, c)) => Err(blocked_message(piece, c)),
    }
}

impl Piece {
    /// Evaluate a requested move of this piece by `by` on `board`: the
    /// record to commit, or a message naming the first violated rule. The
    /// mover's own king's safety is the caller's concern.
    pub fn check_move(
        &self,
        board: &Board,
        m: Move,
        by: Colour,
        en_passant_destination: Option<Coordinate>,
    ) -> (r: Result<MoveRecord, String>)
        requires
            board.wf(),
        ensures
            match r {
                Ok(rec) => check_move_spec(board@, en_passant_destination, m, by, *self)
                    == Outcome::Record(rec),
                Err(msg) => check_move_spec(board@, en_passant_destination, m, by, *self) matches
                    Outcome::Fail(k) && msg@ == err_text(k),
            },
    {
        if self.colour != by {
            return Err(String::from_str("Cannot move opponent's piece"));
        }
        if m.from == m.to {
            return Err(String::from_str("Must move piece"));
        }
        let destination_square = board.at(m.to);
        match destination_square {
            Some(t) if t.colour == by => {
                return Err(String::from_str("Cannot take own piece"));
            },
            _ => {},
        }
        let first_move = !self.has_moved;
        let d_row: i8 = (m.to.row.index() as i8) - (m.from.row.index() as i8);
        let d_column: i8 = (m.to.column.index() as i8) - (m.from.column.index() as i8);
        let abs_dr: i8 = if d_row < 0 {
            -d_row
        } else {
            d_row
        };
        let abs_dc: i8 = if d_column < 0 {
            -d_column
        } else {
            d_column
        };
        match self.piece_type {
            PieceType::Pawn => pawn_move(
                board,
                en_passant_destination,
                m,
                by,
                *self,
                destination_square,
                d_row,
                d_column,
            ),
            PieceType::Rook => {
                if d_row == 0 || d_column == 0 {
                    match has_no_pieces_between(board, &m) {
                        Ok(()) => Ok(simple_or_take_exec(m, destination_square, first_move)),
                        Err((piece, c)) => Err(blocked_message(piece, c)),
                    }
                } else {
                    Err(String::from_str("Cannot move Rook here: not a straight line"))
                }
            },
            PieceType::Knight => {
                if (abs_dr == 1 && abs_dc == 2) || (abs_dr == 2 && abs_dc == 1) {
                    Ok(simple_or_take_exec(m, destination_square, first_move))
                } else {
                    Err(String::from_str("Cannot move Knight here: not in L pattern"))
                }
            },
            PieceType::Bishop => {
                if abs_dr == abs_dc {
                    match has_no_pieces_between(board, &m) {
                        Ok(()) => Ok(simple_or_take_exec(m, destination_square, first_move)),
                        Err((piece, c)) => Err(blocked_message(piece, c)),
                    }
                } else {
                    Err(String::from_str("Cannot move Bishop here: not a diagonal line"))
                }
            },
            PieceType::Queen => {
                if d_row == 0 || d_column == 0 || abs_dr == abs_dc {
                    match has_no_pieces_between(board, &m) {
                        Ok(()) => Ok(simple_or_take_exec(m, destination_square, first_move)),
                        Err((piece, c)) => Err(blocked_message(piece, c)),
                    }
                } else {
                    Err(String::from_str("Cannot move Queen here: not in a line"))
                }
            },
            PieceType::King => {
                if abs_dr <= 1 && abs_dc <= 1 {
                    Ok(simple_or_take_exec(m, destination_square, first_move))
                } else if d_row == 0 && (d_column == 2 || d_column == -2) {
                    castle_move(board, m, by, *self, destination_square, d_column)
                } else {
                    Err(String::from_str("Cannot move King more than one square"))
                }
            },
        }
    }
}

fn simple_or_take_exec(m: Move, dest: Option<Piece>, first_move: bool) -> (rec: MoveRecord)
    ensures
        Outcome::Record(rec) == simple_or_take(m, dest, first_move),
{
    match dest {
        Some(taken) => MoveRecord::TakeMove { m, taken, taken_from: m.to, first_move },
        None => MoveRecord::SimpleMove { m, first_move },
    }
}

impl BoardState {
    /// Evaluate a requested move for `by` on this position: the record to
    /// commit, or a message naming the first violated rule, in checking
    /// order. The mover's own king's safety is not considered here.
    pub fn get_move_result(&self, m: Move, by: Colour) -> (r: Result<MoveRecord, String>)
        requires
            self.board.wf(),
        ensures
            match r {
                Ok(rec) => move_outcome(self.board@, self.en_passant_availability, m, by)
                    == Outcome::Record(rec),
                Err(msg) => move_outcome(self.board@, self.en_passant_availability, m, by) matches
                    Outcome::Fail(k) && msg@ == err_text(k),
            },
    {
        let piece = match self.board.at(m.from) {
            Some(p) => p,
            None => {
                return Err(String::from_str("Cannot move an empty square"));
            },
        };
        piece.check_move(&self.board, m, by, self.en_passant_availability)
    }
}

impl Default for BoardState {
    /// The standard initial position.
    fn default() -> (s: Self)
        ensures
            s.wf(),
            s.current_player == Colour::White,
            forall|i: int| 0 <= i < 64 ==> s.board@[i] == initial_square(i),
    {
        Self::new()
    }
}

} // verus!
