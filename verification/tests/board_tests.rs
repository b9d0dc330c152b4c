use chess::board::BoardState;
use chess::coordinates::ColumnIndex;
use chess::coordinates::Coordinate;
use chess::coordinates::Move;
use chess::coordinates::RowIndex;
use chess::grid::board_iterator;
use chess::moves::MoveRecord;
use chess::piece::Colour;
use chess::piece::Piece;
use chess::piece::PieceType;

fn at(row: RowIndex, column: ColumnIndex) -> Coordinate {
    Coordinate { row, column }
}

fn mv(from: Coordinate, to: Coordinate) -> Move {
    Move { from, to }
}

fn snapshot(state: &BoardState) -> (Vec<Option<Piece>>, Colour, Option<Coordinate>, bool) {
    let mut squares = Vec::new();
    for c in board_iterator() {
        squares.push(state.board.at(c));
    }
    (
        squares,
        state.current_player,
        state.en_passant_availability,
        state.moves.can_undo(),
    )
}

#[test]
fn initial_position_has_twenty_moves() {
    let mut state = BoardState::new();
    let moves = state.get_legal_moves(Colour::White);
    assert_eq!(moves.len(), 20);
}

#[test]
fn every_legal_move_succeeds_and_undoes() {
    // each enumerated move is accepted by try_move, and undoing restores
    // the starting state exactly
    let mut state = BoardState::new();
    let before = snapshot(&state);
    let moves = state.get_legal_moves(Colour::White);
    for m in moves {
        assert!(state.is_legal_move(m).is_ok());
        state.try_move(m).unwrap();
        assert_eq!(state.current_player, Colour::Black);
        state.undo_move();
        assert_eq!(snapshot(&state), before);
    }
}

#[test]
fn fools_mate_is_checkmate() {
    let mut state = BoardState::new();
    state
        .try_move(mv(at(RowIndex::_2, ColumnIndex::F), at(RowIndex::_3, ColumnIndex::F)))
        .unwrap();
    state
        .try_move(mv(at(RowIndex::_7, ColumnIndex::E), at(RowIndex::_5, ColumnIndex::E)))
        .unwrap();
    state
        .try_move(mv(at(RowIndex::_2, ColumnIndex::G), at(RowIndex::_4, ColumnIndex::G)))
        .unwrap();
    assert!(!state.is_checkmate());
    state
        .try_move(mv(at(RowIndex::_8, ColumnIndex::D), at(RowIndex::_4, ColumnIndex::H)))
        .unwrap();
    assert!(state.is_checkmate());
    // the winner is the side that just moved
    assert_eq!(state.get_other_player(), Colour::Black);
}

#[test]
fn double_push_sets_en_passant_target_and_one_ply_only() {
    let mut state = BoardState::new();
    // a double pawn push leaves the skipped square as the target
    state
        .try_move(mv(at(RowIndex::_2, ColumnIndex::E), at(RowIndex::_4, ColumnIndex::E)))
        .unwrap();
    assert_eq!(
        state.en_passant_availability,
        Some(at(RowIndex::_3, ColumnIndex::E))
    );
    // any other move clears it after one ply
    state
        .try_move(mv(at(RowIndex::_8, ColumnIndex::B), at(RowIndex::_6, ColumnIndex::C)))
        .unwrap();
    assert_eq!(state.en_passant_availability, None);
    // a single pawn step sets no target
    state
        .try_move(mv(at(RowIndex::_2, ColumnIndex::D), at(RowIndex::_3, ColumnIndex::D)))
        .unwrap();
    assert_eq!(state.en_passant_availability, None);
}

#[test]
fn en_passant_capture_and_undo() {
    // a White pawn on e5, Black to move: d7-d5 allows exd6 en passant,
    // with the victim taken from d5, and undo restores both pawns
    let mut state =
        BoardState::from_str("rnbqkbnr/ppp1pppp/8/3pP3/8/8/PPPP1PPP/RNBQKBNR b KQkq - 0 1")
            .unwrap();
    // re-play the double push so the target is set by a real move
    let mut state2 =
        BoardState::from_str("rnbqkbnr/pppppppp/8/4P3/8/8/PPPP1PPP/RNBQKBNR b KQkq - 0 1")
            .unwrap();
    state2
        .try_move(mv(at(RowIndex::_7, ColumnIndex::D), at(RowIndex::_5, ColumnIndex::D)))
        .unwrap();
    assert_eq!(
        state2.en_passant_availability,
        Some(at(RowIndex::_6, ColumnIndex::D))
    );
    let capture = mv(at(RowIndex::_5, ColumnIndex::E), at(RowIndex::_6, ColumnIndex::D));
    let record = state2.get_move_result(capture, Colour::White).unwrap();
    match record {
        MoveRecord::TakeMove { taken_from, taken, .. } => {
            assert_eq!(taken_from, at(RowIndex::_5, ColumnIndex::D));
            assert_eq!(taken.piece_type, PieceType::Pawn);
            assert_eq!(taken.colour, Colour::Black);
        }
        other => panic!("expected a capture record, got {:?}", other),
    }
    let before = snapshot(&state2);
    state2.try_move(capture).unwrap();
    assert_eq!(state2.board.at(at(RowIndex::_5, ColumnIndex::D)), None);
    assert_eq!(state2.board.at(at(RowIndex::_5, ColumnIndex::E)), None);
    state2.undo_move();
    assert_eq!(snapshot(&state2), before);
    let d5 = state2.board.at(at(RowIndex::_5, ColumnIndex::D)).unwrap();
    assert_eq!((d5.piece_type, d5.colour), (PieceType::Pawn, Colour::Black));
    let e5 = state2.board.at(at(RowIndex::_5, ColumnIndex::E)).unwrap();
    assert_eq!((e5.piece_type, e5.colour), (PieceType::Pawn, Colour::White));
    // the first state was loaded with no target, so the capture is illegal
    assert!(state.get_move_result(capture, Colour::White).is_err());
}

#[test]
fn en_passant_only_immediately_after_double_push() {
    let mut state =
        BoardState::from_str("rnbqkbnr/pppppppp/8/4P3/8/8/PPPP1PPP/RNBQKBNR b KQkq - 0 1")
            .unwrap();
    state
        .try_move(mv(at(RowIndex::_7, ColumnIndex::D), at(RowIndex::_5, ColumnIndex::D)))
        .unwrap();
    // delay by one ply each: the chance is gone
    state
        .try_move(mv(at(RowIndex::_2, ColumnIndex::A), at(RowIndex::_3, ColumnIndex::A)))
        .unwrap();
    state
        .try_move(mv(at(RowIndex::_7, ColumnIndex::A), at(RowIndex::_6, ColumnIndex::A)))
        .unwrap();
    let capture = mv(at(RowIndex::_5, ColumnIndex::E), at(RowIndex::_6, ColumnIndex::D));
    assert!(state.try_move(capture).is_err());
}

#[test]
fn castling_succeeds_and_undo_restores_flags() {
    let mut state = BoardState::from_str("r3k2r/8/8/8/8/8/8/R3K2R w KQkq - 0 1").unwrap();
    let castle = mv(at(RowIndex::_1, ColumnIndex::E), at(RowIndex::_1, ColumnIndex::G));
    let record = state.get_move_result(castle, Colour::White).unwrap();
    match record {
        MoveRecord::CastleMove { king_move, rook_move } => {
            assert_eq!(king_move, castle);
            assert_eq!(
                rook_move,
                mv(at(RowIndex::_1, ColumnIndex::H), at(RowIndex::_1, ColumnIndex::F))
            );
        }
        other => panic!("expected a castle record, got {:?}", other),
    }
    state.try_move(castle).unwrap();
    let king = state.board.at(at(RowIndex::_1, ColumnIndex::G)).unwrap();
    assert_eq!(king.piece_type, PieceType::King);
    assert!(king.has_moved);
    let rook = state.board.at(at(RowIndex::_1, ColumnIndex::F)).unwrap();
    assert_eq!(rook.piece_type, PieceType::Rook);
    assert!(rook.has_moved);
    state.undo_move();
    let king = state.board.at(at(RowIndex::_1, ColumnIndex::E)).unwrap();
    assert!(!king.has_moved);
    let rook = state.board.at(at(RowIndex::_1, ColumnIndex::H)).unwrap();
    assert!(!rook.has_moved);
}

#[test]
fn castling_prohibited_in_check_through_check_or_after_moving() {
    // in check: a black rook on e8 attacks the king on e1
    let mut in_check = BoardState::from_str("4r3/8/8/8/8/8/8/R3K2R w KQ - 0 1").unwrap();
    let kingside = mv(at(RowIndex::_1, ColumnIndex::E), at(RowIndex::_1, ColumnIndex::G));
    assert_eq!(
        in_check.try_move(kingside).unwrap_err(),
        "Cannot move here: Check"
    );
    // through check: a black rook on f8 attacks the crossing square f1
    let mut through = BoardState::from_str("5r2/8/8/8/8/8/8/R3K2R w KQ - 0 1").unwrap();
    assert_eq!(
        through.try_move(kingside).unwrap_err(),
        "Cannot move here: Check"
    );
    // the king has moved
    let mut king_moved = BoardState::from_str("r3k2r/8/8/8/8/8/8/R3K2R w KQkq - 0 1").unwrap();
    king_moved
        .try_move(mv(at(RowIndex::_1, ColumnIndex::E), at(RowIndex::_1, ColumnIndex::F)))
        .unwrap();
    king_moved
        .try_move(mv(at(RowIndex::_8, ColumnIndex::A), at(RowIndex::_8, ColumnIndex::B)))
        .unwrap();
    king_moved
        .try_move(mv(at(RowIndex::_1, ColumnIndex::F), at(RowIndex::_1, ColumnIndex::E)))
        .unwrap();
    king_moved
        .try_move(mv(at(RowIndex::_8, ColumnIndex::B), at(RowIndex::_8, ColumnIndex::A)))
        .unwrap();
    assert_eq!(
        king_moved.try_move(kingside).unwrap_err(),
        "Cannot castle: King has been moved"
    );
    // the rook has moved
    let mut rook_moved = BoardState::from_str("r3k2r/8/8/8/8/8/8/R3K2R w KQkq - 0 1").unwrap();
    rook_moved
        .try_move(mv(at(RowIndex::_1, ColumnIndex::H), at(RowIndex::_1, ColumnIndex::G)))
        .unwrap();
    rook_moved
        .try_move(mv(at(RowIndex::_8, ColumnIndex::A), at(RowIndex::_8, ColumnIndex::B)))
        .unwrap();
    rook_moved
        .try_move(mv(at(RowIndex::_1, ColumnIndex::G), at(RowIndex::_1, ColumnIndex::H)))
        .unwrap();
    rook_moved
        .try_move(mv(at(RowIndex::_8, ColumnIndex::B), at(RowIndex::_8, ColumnIndex::A)))
        .unwrap();
    assert_eq!(
        rook_moved.try_move(kingside).unwrap_err(),
        "Cannot castle this way: target Rook has been moved"
    );
}

#[test]
fn promotion_yields_queen_both_ways() {
    // White pawn a7 to a8
    let mut white = BoardState::from_str("7k/P7/8/8/8/8/8/K7 w - - 0 1").unwrap();
    let push = mv(at(RowIndex::_7, ColumnIndex::A), at(RowIndex::_8, ColumnIndex::A));
    match white.get_move_result(push, Colour::White).unwrap() {
        MoveRecord::PawnPromotion { to, taken, .. } => {
            assert_eq!(to, PieceType::Queen);
            assert_eq!(taken, None);
        }
        other => panic!("expected a promotion record, got {:?}", other),
    }
    white.try_move(push).unwrap();
    let promoted = white.board.at(at(RowIndex::_8, ColumnIndex::A)).unwrap();
    assert_eq!(promoted.piece_type, PieceType::Queen);
    assert_eq!(promoted.colour, Colour::White);
    // Black pawn h2 to h1
    let mut black = BoardState::from_str("k7/8/8/8/8/8/7p/K7 b - - 0 1").unwrap();
    let drop = mv(at(RowIndex::_2, ColumnIndex::H), at(RowIndex::_1, ColumnIndex::H));
    match black.get_move_result(drop, Colour::Black).unwrap() {
        MoveRecord::PawnPromotion { to, .. } => assert_eq!(to, PieceType::Queen),
        other => panic!("expected a promotion record, got {:?}", other),
    }
}

#[test]
fn move_rejections_carry_their_reasons() {
    let mut state = BoardState::new();
    let empty = mv(at(RowIndex::_4, ColumnIndex::E), at(RowIndex::_5, ColumnIndex::E));
    assert_eq!(
        state.try_move(empty).unwrap_err(),
        "Cannot move an empty square"
    );
    let opponents = mv(at(RowIndex::_7, ColumnIndex::E), at(RowIndex::_6, ColumnIndex::E));
    assert_eq!(
        state.try_move(opponents).unwrap_err(),
        "Cannot move opponent's piece"
    );
    let stay = mv(at(RowIndex::_2, ColumnIndex::E), at(RowIndex::_2, ColumnIndex::E));
    assert_eq!(state.try_move(stay).unwrap_err(), "Must move piece");
    let own = mv(at(RowIndex::_1, ColumnIndex::A), at(RowIndex::_2, ColumnIndex::A));
    assert_eq!(state.try_move(own).unwrap_err(), "Cannot take own piece");
    let blocked = mv(at(RowIndex::_1, ColumnIndex::A), at(RowIndex::_4, ColumnIndex::A));
    assert_eq!(
        state.try_move(blocked).unwrap_err(),
        "Cannot move here: blocked at (_2, A), by White Pawn"
    );
    let jump = mv(at(RowIndex::_1, ColumnIndex::E), at(RowIndex::_3, ColumnIndex::E));
    assert_eq!(
        state.try_move(jump).unwrap_err(),
        "Cannot move King more than one square"
    );
    let l_shape = mv(at(RowIndex::_1, ColumnIndex::B), at(RowIndex::_3, ColumnIndex::B));
    assert_eq!(
        state.try_move(l_shape).unwrap_err(),
        "Cannot move Knight here: not in L pattern"
    );
    let mut lone = BoardState::from_str("k7/8/8/8/8/4P3/8/K7 w - - 0 1").unwrap();
    let pawn_back = mv(at(RowIndex::_3, ColumnIndex::E), at(RowIndex::_2, ColumnIndex::E));
    assert_eq!(
        lone.try_move(pawn_back).unwrap_err(),
        "Cannot move Pawn backwards"
    );
    let pawn_jump = mv(at(RowIndex::_2, ColumnIndex::E), at(RowIndex::_4, ColumnIndex::E));
    let mut jumped = BoardState::from_str("k7/8/8/8/8/4N3/4P3/K7 w - - 0 1").unwrap();
    assert_eq!(jumped.try_move(pawn_jump).unwrap_err(), "Cannot jump with Pawn");
}

#[test]
fn do_and_undo_are_inverse_over_a_sequence() {
    let mut state = BoardState::new();
    let before = snapshot(&state);
    let game = [
        (at(RowIndex::_2, ColumnIndex::E), at(RowIndex::_4, ColumnIndex::E)),
        (at(RowIndex::_7, ColumnIndex::E), at(RowIndex::_5, ColumnIndex::E)),
        (at(RowIndex::_1, ColumnIndex::G), at(RowIndex::_3, ColumnIndex::F)),
        (at(RowIndex::_8, ColumnIndex::B), at(RowIndex::_6, ColumnIndex::C)),
    ];
    for (from, to) in game {
        state.try_move(mv(from, to)).unwrap();
    }
    for _ in 0..game.len() {
        state.undo_move();
    }
    assert_eq!(snapshot(&state), before);
}

#[test]
fn legal_moves_map_groups_by_origin() {
    let mut state = BoardState::new();
    let map = state.get_legal_moves_map(Colour::White);
    let mut total = 0;
    for (from, tos) in &map {
        assert!(!tos.is_empty());
        for to in tos {
            assert!(state.is_legal_move(mv(*from, *to)).is_ok());
        }
        total += tos.len();
    }
    assert_eq!(total, 20);
}

#[test]
fn squares_between_examples() {
    let diagonal = mv(at(RowIndex::_1, ColumnIndex::A), at(RowIndex::_4, ColumnIndex::D));
    assert_eq!(
        diagonal.squares_between(),
        vec![at(RowIndex::_2, ColumnIndex::B), at(RowIndex::_3, ColumnIndex::C)]
    );
    let anti = mv(at(RowIndex::_7, ColumnIndex::G), at(RowIndex::_4, ColumnIndex::D));
    assert_eq!(
        anti.squares_between(),
        vec![at(RowIndex::_6, ColumnIndex::F), at(RowIndex::_5, ColumnIndex::E)]
    );
    let file = mv(at(RowIndex::_7, ColumnIndex::G), at(RowIndex::_4, ColumnIndex::G));
    assert_eq!(
        file.squares_between(),
        vec![at(RowIndex::_6, ColumnIndex::G), at(RowIndex::_5, ColumnIndex::G)]
    );
    let rank = mv(at(RowIndex::_7, ColumnIndex::G), at(RowIndex::_7, ColumnIndex::D));
    assert_eq!(
        rank.squares_between(),
        vec![at(RowIndex::_7, ColumnIndex::F), at(RowIndex::_7, ColumnIndex::E)]
    );
    let rank_up = mv(at(RowIndex::_7, ColumnIndex::D), at(RowIndex::_7, ColumnIndex::G));
    assert_eq!(
        rank_up.squares_between(),
        vec![at(RowIndex::_7, ColumnIndex::E), at(RowIndex::_7, ColumnIndex::F)]
    );
    let adjacent = mv(at(RowIndex::_1, ColumnIndex::A), at(RowIndex::_2, ColumnIndex::B));
    assert_eq!(adjacent.squares_between(), vec![]);
    let knight = mv(at(RowIndex::_1, ColumnIndex::B), at(RowIndex::_3, ColumnIndex::A));
    assert_eq!(knight.squares_between(), vec![]);
}

#[test]
fn board_iterator_lists_all_squares_in_order() {
    let squares = board_iterator();
    assert_eq!(squares.len(), 64);
    assert_eq!(squares[0], at(RowIndex::_8, ColumnIndex::A));
    assert_eq!(squares[7], at(RowIndex::_8, ColumnIndex::H));
    assert_eq!(squares[8], at(RowIndex::_7, ColumnIndex::A));
    assert_eq!(squares[63], at(RowIndex::_1, ColumnIndex::H));
    for (i, c) in squares.iter().enumerate() {
        assert_eq!(c.index(), i);
    }
}

#[test]
fn player_toggles_on_commit_and_undo() {
    let mut state = BoardState::new();
    assert_eq!(state.get_next_player(), Colour::White);
    assert_eq!(state.get_other_player(), Colour::Black);
    state
        .try_move(mv(at(RowIndex::_2, ColumnIndex::E), at(RowIndex::_4, ColumnIndex::E)))
        .unwrap();
    assert_eq!(state.get_next_player(), Colour::Black);
    state.undo_move();
    assert_eq!(state.get_next_player(), Colour::White);
}
