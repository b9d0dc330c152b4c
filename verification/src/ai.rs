//! A bounded-depth alpha-beta search over the board state, with a
//! material-plus-position heuristic. Scores are fixed-point: a pawn in
//! the board's centre counts 10_000, and the extreme bounds are plus and
//! minus `WIN`. White maximises and Black minimises.

use vstd::prelude::*;
use vstd::pervasive::unreached;

use crate::board::BoardState;
use crate::board::same_position;
use crate::coordinates::ColumnIndex;
use crate::coordinates::Coordinate;
use crate::coordinates::Move;
use crate::coordinates::RowIndex;
use crate::coordinates::col_of;
use crate::coordinates::row_of;
use crate::coordinates::square_of;
use crate::grid::Square;
use crate::grid::board_iterator;
use crate::piece::Colour;
use crate::rules::Outcome;
use crate::moves::StateModel;
use crate::rules::apply_model;
use crate::rules::has_king;
use crate::rules::legal_moves_seq;
use crate::rules::lemma_legal_moves_iff;
use crate::rules::lemma_outcome_valid;
use crate::rules::move_legal;

verus! {

/// The score standing for a won game: the bound the search starts from.
pub const WIN: i64 = 1000000;

/// The positional weight of a rank, in hundredths.
pub open spec fn row_factor(r: RowIndex) -> int {
    match r {
        RowIndex::_1 | RowIndex::_8 => 85,
        RowIndex::_2 | RowIndex::_7 => 90,
        RowIndex::_3 | RowIndex::_6 => 95,
        RowIndex::_4 | RowIndex::_5 => 100,
    }
}

/// The positional weight of a file, in hundredths.
pub open spec fn col_factor(c: ColumnIndex) -> int {
    match c {
        ColumnIndex::A | ColumnIndex::H => 85,
        ColumnIndex::B | ColumnIndex::G => 90,
        ColumnIndex::C | ColumnIndex::F => 95,
        ColumnIndex::D | ColumnIndex::E => 100,
    }
}

/// The contribution of one square: the piece's signed value weighted by
/// its rank and file.
pub open spec fn square_score(sq: Square, i: int) -> int {
    match sq {
        Some(p) => p.spec_value() * row_factor(row_of(i / 8)) * col_factor(col_of(i % 8)),
        None => 0,
    }
}

pub open spec fn heuristic_upto(b: Seq<Square>, n: int) -> int
    decreases n,
{
    if n <= 0 {
        0
    } else {
        heuristic_upto(b, n - 1) + square_score(b[n - 1], n - 1)
    }
}

/// The position heuristic: the sum over every occupied square of the
/// piece's signed value times its rank and file weights.
pub open spec fn heuristic_spec(b: Seq<Square>) -> int {
    heuristic_upto(b, 64)
}

fn row_factor_exec(r: RowIndex) -> (f: i64)
    ensures
        f == row_factor(r),
        85 <= f <= 100,
{
    match r {
        RowIndex::_1 | RowIndex::_8 => 85,
        RowIndex::_2 | RowIndex::_7 => 90,
        RowIndex::_3 | RowIndex::_6 => 95,
        RowIndex::_4 | RowIndex::_5 => 100,
    }
}

fn col_factor_exec(c: ColumnIndex) -> (f: i64)
    ensures
        f == col_factor(c),
        85 <= f <= 100,
{
    match c {
        ColumnIndex::A | ColumnIndex::H => 85,
        ColumnIndex::B | ColumnIndex::G => 90,
        ColumnIndex::C | ColumnIndex::F => 95,
        ColumnIndex::D | ColumnIndex::E => 100,
    }
}

/// Evaluate the position: positive when White stands better.
pub fn heuristic(state: &BoardState) -> (h: i64)
    requires
        state.board.wf(),
    ensures
        h == heuristic_spec(state.board@),
        -5760000 <= h <= 5760000,
{
    let squares = board_iterator();
    let mut total: i64 = 0;
    let mut i: usize = 0;
    while i < 64
        invariant
            state.board.wf(),
            squares@.len() == 64,
            forall|j: int| 0 <= j < 64 ==> squares@[j] == square_of(j),
            0 <= i <= 64,
            total == heuristic_upto(state.board@, i as int),
            -90000 * i <= total <= 90000 * i,
        decreases 64 - i,
    {
        let c = squares[i];
        proof {
            crate::coordinates::lemma_idx_of_square(i as int);
        }
        match state.board.at(c) {
            Some(p) => {
                let v = p.get_value();
                let rf = row_factor_exec(c.row);
                let cf = col_factor_exec(c.column);
                assert(-900 <= v * rf <= 900) by (nonlinear_arith)
                    requires
                        -9 <= v <= 9,
                        85 <= rf <= 100,
                ;
                let vr = v * rf;
                assert(-90000 <= vr * cf <= 90000) by (nonlinear_arith)
                    requires
                        -900 <= vr <= 900,
                        85 <= cf <= 100,
                ;
                let sc = vr * cf;
                assert(sc == square_score(state.board@[i as int], i as int));
                total = total + sc;
            },
            None => {},
        }
        i = i + 1;
    }
    total
}

/// The search-based player: picks moves by an alpha-beta search of the
/// requested depth.
#[derive(Debug)]
pub struct AiPlayer {
    depth: u8,
}

impl AiPlayer {
    pub fn new(depth: u8) -> (p: Self)
        ensures
            p.spec_depth() == depth,
    {
        AiPlayer { depth }
    }

    /// The requested search depth.
    pub closed spec fn spec_depth(self) -> u8 {
        self.depth
    }

    /// The move the search picks for the current player; the state is
    /// left exactly as found. The position must offer a legal move.
    pub fn get_move(&self, board_state: &mut BoardState) -> (m: Move)
        requires
            old(board_state).wf(),
            has_king(old(board_state).board@, old(board_state).current_player),
            legal_moves_seq(old(board_state).model()).len() > 0,
        ensures
            same_position(*final(board_state), *old(board_state)),
            final(board_state).wf(),
            move_legal(old(board_state).model(), m),
            ({
                let p = search_plies(self.spec_depth());
                let mm = minimax(old(board_state).model(), p as nat);
                -(WIN as int) < mm < WIN as int ==> move_value(
                    old(board_state).model(),
                    m,
                    (p - 1) as nat,
                ) == mm
            }),
    {
        get_best_move(board_state, self.depth)
    }
}

/// The losing score for a side: what a position with no move left, or no
/// king, is worth to it.
pub open spec fn worst_for(c: Colour) -> int {
    if c == Colour::White {
        -WIN as int
    } else {
        WIN as int
    }
}

/// The exact value of the bounded game tree: the heuristic at depth zero;
/// a loss for the side to move where it has no king or no legal move; and
/// otherwise White's maximum (Black's minimum) over the values of the
/// positions reached by each legal move, searched one ply shallower.
pub open spec fn minimax(st: StateModel, depth: nat) -> int
    decreases depth, 0int, 0int,
{
    if depth == 0 {
        heuristic_spec(st.board)
    } else if !has_king(st.board, st.player) || legal_moves_seq(st).len() == 0 {
        worst_for(st.player)
    } else {
        best_value_upto(st, (depth - 1) as nat, legal_moves_seq(st).len() as int)
    }
}

/// The value of the position reached by legal move `m`, searched to
/// `cdepth` further plies.
pub open spec fn move_value(st: StateModel, m: Move, cdepth: nat) -> int
    decreases cdepth, 1int, 0int,
{
    match crate::rules::move_outcome(st.board, st.ep, m, st.player) {
        Outcome::Record(rec) => minimax(crate::rules::apply_model(st, rec), cdepth),
        Outcome::Fail(_) => worst_for(st.player),
    }
}

/// White's maximum (Black's minimum) of the values of the first `k` legal
/// moves of the position, each searched to `cdepth` further plies;
/// meaningful for `k` at least 1.
pub open spec fn best_value_upto(st: StateModel, cdepth: nat, k: int) -> int
    decreases cdepth, 2int, k,
{
    if k <= 1 {
        move_value(st, legal_moves_seq(st)[0], cdepth)
    } else {
        let prev = best_value_upto(st, cdepth, k - 1);
        let v = move_value(st, legal_moves_seq(st)[k - 1], cdepth);
        if st.player == Colour::White {
            if v >= prev {
                v
            } else {
                prev
            }
        } else {
            if v <= prev {
                v
            } else {
                prev
            }
        }
    }
}

/// The best over the first `k` moves bounds every one of them.
proof fn lemma_bvu_bound(st: StateModel, cdepth: nat, k: int, j: int)
    requires
        1 <= k,
        0 <= j < k,
    ensures
        st.player == Colour::White ==> best_value_upto(st, cdepth, k) >= move_value(
            st,
            legal_moves_seq(st)[j],
            cdepth,
        ),
        st.player != Colour::White ==> best_value_upto(st, cdepth, k) <= move_value(
            st,
            legal_moves_seq(st)[j],
            cdepth,
        ),
    decreases k,
{
    if k > 1 && j < k - 1 {
        lemma_bvu_bound(st, cdepth, k - 1, j);
    }
}

/// The number of plies a requested depth is searched to.
pub open spec fn search_plies(depth: u8) -> int {
    (if depth == 0 {
        1int
    } else {
        depth as int
    }) * 2 - 1
}

/// Search for the best move at the requested depth: a depth of `d` is
/// searched to `max(1, d) * 2 - 1` plies so both sides are considered.
/// The state is left exactly as found; the position must offer a legal
/// move. Whenever the tree's minimax value lies strictly inside the
/// (-WIN, WIN) window, the returned move attains exactly that value.
pub fn get_best_move(board_state: &mut BoardState, depth: u8) -> (m: Move)
    requires
        old(board_state).wf(),
        has_king(old(board_state).board@, old(board_state).current_player),
        legal_moves_seq(old(board_state).model()).len() > 0,
    ensures
        same_position(*final(board_state), *old(board_state)),
        final(board_state).wf(),
        move_legal(old(board_state).model(), m),
        ({
            let p = search_plies(depth);
            let mm = minimax(old(board_state).model(), p as nat);
            -(WIN as int) < mm < WIN as int ==> move_value(
                old(board_state).model(),
                m,
                (p - 1) as nat,
            ) == mm
        }),
{
    let d: usize = if depth == 0 {
        1
    } else {
        depth as usize
    };
    let plies = d * 2 - 1;
    assert(plies == search_plies(depth));
    let (best, value) = alpha_beta(board_state, plies, -WIN, WIN);
    proof {
        let mm = minimax(old(board_state).model(), plies as nat);
        if -(WIN as int) < mm < WIN as int {
            assert(-WIN < value && value < WIN);
        }
    }
    match best {
        Some(m) => m,
        None => unreached(),
    }
}

/// One level of the alpha-beta recursion: `best_white` is the best score
/// White has secured so far and `best_black` the best Black has; a child
/// at least as good as the opponent's bound cuts the branch off. A side
/// without a legal move scores as lost. The state is left exactly as
/// found.
///
/// The running best is replaced only by a strictly better child, so that
/// the kept move is one whose reported value was exact, not clamped by a
/// deeper cutoff. The returned value characterises the minimax value of
/// the bounded tree in the fail-soft way: exact when it lies strictly
/// inside the window, a sound bound when it falls on or outside it; the
/// returned move's own value obeys the same discipline.
#[verifier::rlimit(100)]
#[verifier::spinoff_prover]
fn alpha_beta(state: &mut BoardState, depth: usize, best_white: i64, best_black: i64) -> (r: (
    Option<Move>,
    i64,
))
    requires
        old(state).wf(),
        best_white < best_black,
    ensures
        same_position(*final(state), *old(state)),
        final(state).wf(),
        (r.0 matches Some(m) ==> move_legal(old(state).model(), m)),
        (depth > 0 && has_king(old(state).board@, old(state).current_player) && legal_moves_seq(
            old(state).model(),
        ).len() > 0) ==> r.0 is Some,
        depth == 0 ==> r.0 is None && r.1 == heuristic_spec(old(state).board@),
        (depth > 0 && has_king(old(state).board@, old(state).current_player) && legal_moves_seq(
            old(state).model(),
        ).len() == 0) ==> r.0 is None && r.1 == (if old(state).current_player == Colour::White {
            -WIN as int
        } else {
            WIN as int
        }),
        ({
            let mm = minimax(old(state).model(), depth as nat);
            &&& (r.1 <= best_white ==> mm <= r.1)
            &&& (r.1 >= best_black ==> mm >= r.1)
            &&& (best_white < r.1 < best_black ==> r.1 == mm)
        }),
        (r.0 matches Some(m) ==> depth >= 1 && ({
            let mv = move_value(old(state).model(), m, (depth - 1) as nat);
            if old(state).current_player == Colour::White {
                &&& (r.1 < best_black ==> mv <= r.1)
                &&& (r.1 >= best_black ==> mv >= r.1)
                &&& (best_white < r.1 < best_black ==> mv == r.1)
            } else {
                &&& (r.1 > best_white ==> mv >= r.1)
                &&& (r.1 <= best_white ==> mv <= r.1)
                &&& (best_white < r.1 < best_black ==> mv == r.1)
            }
        })),
    decreases depth,
{
    if depth == 0 {
        let h = heuristic(state);
        return (None, h);
    }
    let current_player = state.get_next_player();
    // a position without the mover's king admits no evaluation; score it
    // as lost for the mover
    if !state.has_king_on_board(current_player) {
        let worst: i64 = if matches!(current_player, Colour::White) {
            -WIN
        } else {
            WIN
        };
        return (None, worst);
    }
    let ghost st0 = state.model();
    let moves = state.get_legal_moves(current_player);
    let is_white = matches!(current_player, Colour::White);
    let mut current_best: i64 = if is_white {
        best_white
    } else {
        best_black
    };
    let other_best: i64 = if is_white {
        best_black
    } else {
        best_white
    };
    let worst: i64 = if is_white {
        -WIN
    } else {
        WIN
    };
    let mut best_move: Option<Move> = None;
    let mut best_value: i64 = worst;
    let ghost cdepth = (depth - 1) as nat;
    let ghost n = moves@.len() as int;
    proof {
        if n > 0 {
            assert(minimax(st0, depth as nat) == best_value_upto(st0, cdepth, n));
        } else {
            assert(minimax(st0, depth as nat) == worst_for(st0.player));
        }
    }
    let mut i: usize = 0;
    while i < moves.len()
        invariant
            same_position(*state, *old(state)),
            state.wf(),
            st0 == state.model(),
            current_player == state.current_player,
            has_king(state.board@, current_player),
            moves@ == legal_moves_seq(st0),
            depth >= 1,
            best_white < best_black,
            cdepth == (depth - 1) as nat,
            n == moves@.len() as int,
            n > 0 ==> minimax(st0, depth as nat) == best_value_upto(st0, cdepth, n),
            0 <= i <= moves@.len(),
            best_move matches Some(m) ==> move_legal(st0, m),
            i > 0 ==> best_move is Some,
            is_white == (current_player == Colour::White),
            is_white == (st0.player == Colour::White),
            worst == (if is_white {
                -WIN as int
            } else {
                WIN as int
            }),
            i == 0 ==> best_move is None && best_value == worst && current_best == (if is_white {
                best_white
            } else {
                best_black
            }),
            other_best == (if is_white {
                best_black
            } else {
                best_white
            }),
            i > 0 ==> current_best == (if is_white {
                if best_value > best_white {
                    best_value as int
                } else {
                    best_white as int
                }
            } else {
                if best_value < best_black {
                    best_value as int
                } else {
                    best_black as int
                }
            }),
            i > 0 ==> (if is_white {
                best_value < best_black
            } else {
                best_value > best_white
            }),
            i > 0 ==> (if is_white {
                best_value_upto(st0, cdepth, i as int) <= best_value && (best_value > best_white
                    ==> best_value_upto(st0, cdepth, i as int) == best_value)
            } else {
                best_value_upto(st0, cdepth, i as int) >= best_value && (best_value < best_black
                    ==> best_value_upto(st0, cdepth, i as int) == best_value)
            }),
            i > 0 ==> (best_move matches Some(bm) && (if is_white {
                move_value(st0, bm, cdepth) <= best_value && (best_value > best_white
                    ==> move_value(st0, bm, cdepth) == best_value)
            } else {
                move_value(st0, bm, cdepth) >= best_value && (best_value < best_black
                    ==> move_value(st0, bm, cdepth) == best_value)
            })),
        decreases moves@.len() - i,
    {
        let m = moves[i];
        proof {
            assert(legal_moves_seq(st0).contains(m));
            lemma_legal_moves_iff(st0, m);
        }
        let record = match state.get_move_result(m, current_player) {
            Ok(rec) => rec,
            Err(_) => unreached(),
        };
        proof {
            lemma_outcome_valid(
                state.board@,
                state.en_passant_availability,
                m,
                current_player,
                record,
            );
        }
        state.do_move(record);
        let child = if is_white {
            alpha_beta(state, depth - 1, current_best, other_best)
        } else {
            alpha_beta(state, depth - 1, other_best, current_best)
        };
        let value = child.1;
        let ghost mmi = move_value(st0, m, cdepth);
        proof {
            assert(mmi == minimax(apply_model(st0, record), cdepth));
        }
        state.undo_move();
        proof {
            assert(state.moves.history() =~= old(state).moves.history());
            assert(state.moves.snaps() =~= old(state).moves.snaps());
        }
        if is_white {
            if best_move.is_none() || value > best_value {
                best_move = Some(m);
                best_value = value;
            }
            if value >= other_best {
                proof {
                    assert(best_value == value);
                    assert(mmi >= value);
                    lemma_bvu_bound(st0, cdepth, n, i as int);
                    assert(best_value_upto(st0, cdepth, n) >= mmi);
                }
                return (best_move, best_value);
            }
            if value > current_best {
                current_best = value;
            }
        } else {
            if best_move.is_none() || value < best_value {
                best_move = Some(m);
                best_value = value;
            }
            if value <= other_best {
                proof {
                    assert(best_value == value);
                    assert(mmi <= value);
                    lemma_bvu_bound(st0, cdepth, n, i as int);
                    assert(best_value_upto(st0, cdepth, n) <= mmi);
                }
                return (best_move, best_value);
            }
            if value < current_best {
                current_best = value;
            }
        }
        proof {
            // the child was not cut off, so its value is exact or a sound
            // bound on the low side of the window
            if is_white {
                assert(mmi <= value);
            } else {
                assert(mmi >= value);
            }
            if i == 0 {
                assert(best_value_upto(st0, cdepth, 1) == mmi);
            } else {
                assert(best_value_upto(st0, cdepth, i + 1) == (if is_white {
                    if mmi >= best_value_upto(st0, cdepth, i as int) {
                        mmi
                    } else {
                        best_value_upto(st0, cdepth, i as int)
                    }
                } else {
                    if mmi <= best_value_upto(st0, cdepth, i as int) {
                        mmi
                    } else {
                        best_value_upto(st0, cdepth, i as int)
                    }
                }));
            }
        }
        i = i + 1;
    }
    proof {
        if moves@.len() > 0 {
            assert(best_value_upto(st0, cdepth, n) == minimax(st0, depth as nat));
        }
    }
    (best_move, best_value)
}

} // verus!
