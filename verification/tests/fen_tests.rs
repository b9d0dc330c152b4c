use chess::board::BoardState;
use chess::coordinates::ColumnIndex;
use chess::coordinates::Coordinate;
use chess::coordinates::RowIndex;
use chess::grid::Board;
use chess::grid::board_iterator;
use chess::moves::MoveRecords;
use chess::piece::Colour;
use chess::piece::Piece;
use chess::parsing::parse_coordinate;
use chess::piece::PieceType;

#[test]
fn empty_board() {
    let expect: BoardState = BoardState {
        current_player: Default::default(),
        board: Default::default(),
        moves: Default::default(),
        en_passant_availability: None,
    };
    let actual = BoardState::from_str("8/8/8/8/8/8/8/8 w - - - -").unwrap();
    assert_eq!(expect.current_player, actual.current_player);
    assert_eq!(expect.board, actual.board);
    assert_eq!(expect.en_passant_availability, actual.en_passant_availability);
    assert_eq!(expect.moves.can_undo(), actual.moves.can_undo());
}

const INITIAL_FEN: &str = "rnbqkbnr/pppppppp/8/8/8/8/PPPPPPPP/RNBQKBNR w KQkq - 0 1";

#[test]
fn initial_fen_matches_new() {
    // the decoded state is semantically the fresh one: the same pieces
    // everywhere, and the same `has_moved` wherever the flag matters
    // (pawns, rooks and kings; the others are assumed moved by the
    // reconstruction)
    let decoded = BoardState::from_str(INITIAL_FEN).unwrap();
    let fresh = BoardState::new();
    for c in board_iterator() {
        let d = decoded.board.at(c);
        let f = fresh.board.at(c);
        assert_eq!(d.map(|p| (p.piece_type, p.colour)), f.map(|p| (p.piece_type, p.colour)));
        match d {
            Some(p)
                if matches!(
                    p.piece_type,
                    PieceType::Pawn | PieceType::Rook | PieceType::King
                ) =>
            {
                assert_eq!(p.has_moved, f.unwrap().has_moved);
            }
            _ => {}
        }
    }
    assert_eq!(decoded.current_player, fresh.current_player);
    assert_eq!(decoded.en_passant_availability, fresh.en_passant_availability);
    assert!(!decoded.moves.can_undo());
}

#[test]
fn initial_fen_has_moved_reconstruction() {
    let decoded = BoardState::from_str(INITIAL_FEN).unwrap();
    for c in board_iterator() {
        if let Some(p) = decoded.board.at(c) {
            match p.piece_type {
                PieceType::Rook | PieceType::King | PieceType::Pawn => {
                    assert!(!p.has_moved, "{:?} at {:?} should be unmoved", p, c);
                }
                _ => {}
            }
        }
    }
}

#[test]
fn no_castling_marks_rooks_and_kings_moved() {
    let decoded =
        BoardState::from_str("rnbqkbnr/pppppppp/8/8/8/8/PPPPPPPP/RNBQKBNR w - - 0 1").unwrap();
    for c in board_iterator() {
        if let Some(p) = decoded.board.at(c) {
            match p.piece_type {
                PieceType::Rook | PieceType::King => {
                    assert!(p.has_moved, "{:?} at {:?} should be marked moved", p, c);
                }
                PieceType::Pawn => assert!(!p.has_moved),
                _ => assert!(p.has_moved),
            }
        }
    }
}


fn decode_err(fen: &str) -> String {
    match BoardState::from_str(fen) {
        Err(e) => e,
        Ok(_) => panic!("expected a decode error for {}", fen),
    }
}

#[test]
fn fen_field_count_rejected() {
    assert_eq!(
        decode_err("8/8/8/8/8/8/8/8 w - -"),
        "FEN PARSE ERROR: wrong number of fields in record (4/6)"
    );
    assert_eq!(
        decode_err(""),
        "FEN PARSE ERROR: wrong number of fields in record (1/6)"
    );
}

#[test]
fn fen_bad_player_rejected() {
    assert_eq!(
        decode_err("8/8/8/8/8/8/8/8 x - - - -"),
        "FEN PARSE ERROR: next player must be 'b' or 'w' (not x)"
    );
}

#[test]
fn fen_bad_castling_rejected() {
    assert_eq!(
        decode_err("8/8/8/8/8/8/8/8 w Kx - - -"),
        "FEN PARSE ERROR: invalid character in availability field x"
    );
    assert_eq!(
        decode_err("8/8/8/8/8/8/8/8 w KK - - -"),
        "FEN PARSE ERROR: repeated character in availability field K"
    );
}

#[test]
fn fen_wrong_row_count_rejected() {
    assert_eq!(
        decode_err("8/8/8/8/8/8/8 w - - - -"),
        "FEN PARSE ERROR: wrong number of rows (7/8)"
    );
    assert_eq!(
        decode_err("8/8/8/8/8/8/8/8/8 w - - - -"),
        "FEN PARSE ERROR: wrong number of rows (9/8)"
    );
}

#[test]
fn fen_wrong_row_width_rejected() {
    assert_eq!(
        decode_err("7/8/8/8/8/8/8/8 w - - - -"),
        "FEN PARSE ERROR: wrong number of pieces (7/8) in row 0"
    );
    assert_eq!(
        decode_err("44P/8/8/8/8/8/8/8 w - - - -"),
        "FEN PARSE ERROR: wrong number of pieces (9/8) in row 0"
    );
    assert_eq!(
        decode_err("8/8/8/6P/8/8/8/8 w - - - -"),
        "FEN PARSE ERROR: wrong number of pieces (7/8) in row 3"
    );
}

#[test]
fn fen_bad_square_char_rejected() {
    assert_eq!(
        decode_err("7x/8/8/8/8/8/8/8 w - - - -"),
        "Invalid character for square x"
    );
}

#[test]
fn fen_bad_en_passant_rejected() {
    assert_eq!(
        decode_err("8/8/8/8/8/8/8/8 w - z9 - -"),
        "Invalid column z"
    );
    assert_eq!(
        decode_err("8/8/8/8/8/8/8/8 w - e99 - -"),
        "Coordinates must have exactly two characters"
    );
}

#[test]
fn fen_en_passant_target_accepted() {
    let st = BoardState::from_str("rnbqkbnr/pppppppp/8/8/4P3/8/PPPP1PPP/RNBQKBNR b KQkq e3 0 1")
        .unwrap();
    assert_eq!(
        st.en_passant_availability,
        Some(Coordinate { row: RowIndex::_3, column: ColumnIndex::E })
    );
    assert_eq!(st.current_player, Colour::Black);
}

#[test]
fn fen_shredder_castling_accepted() {
    let st = BoardState::from_str("r3k2r/8/8/8/8/8/8/R3K2R w AHah - 0 1").unwrap();
    let corners = [
        (RowIndex::_1, ColumnIndex::A),
        (RowIndex::_1, ColumnIndex::H),
        (RowIndex::_8, ColumnIndex::A),
        (RowIndex::_8, ColumnIndex::H),
    ];
    for (row, column) in corners {
        let p = st.board.at(Coordinate { row, column }).unwrap();
        assert_eq!(p.piece_type, PieceType::Rook);
        assert!(!p.has_moved);
    }
}

#[test]
fn piece_from_char_codec() {
    assert_eq!(
        Piece::from_char('P').unwrap(),
        Some(Piece { piece_type: PieceType::Pawn, colour: Colour::White, has_moved: false })
    );
    assert_eq!(
        Piece::from_char('q').unwrap(),
        Some(Piece { piece_type: PieceType::Queen, colour: Colour::Black, has_moved: false })
    );
    assert_eq!(Piece::from_char('_').unwrap(), None);
    assert_eq!(Piece::from_char(' ').unwrap(), None);
    assert!(Piece::from_char('z').is_err());
}

#[test]
fn default_board_is_empty_and_new_is_initial() {
    let empty = Board::default();
    for c in board_iterator() {
        assert_eq!(empty.at(c), None);
    }
    let initial = Board::new();
    let back = initial
        .at(Coordinate { row: RowIndex::_1, column: ColumnIndex::E })
        .unwrap();
    assert_eq!(back.piece_type, PieceType::King);
    assert_eq!(back.colour, Colour::White);
    assert!(!back.has_moved);
    let _records = MoveRecords::new(None);
}

#[test]
fn parse_coordinate_cases() {
    assert_eq!(
        parse_coordinate("e4").unwrap(),
        Coordinate { row: RowIndex::_4, column: ColumnIndex::E }
    );
    assert_eq!(
        parse_coordinate("A1").unwrap(),
        Coordinate { row: RowIndex::_1, column: ColumnIndex::A }
    );
    assert_eq!(
        parse_coordinate("h8").unwrap(),
        Coordinate { row: RowIndex::_8, column: ColumnIndex::H }
    );
    assert_eq!(
        parse_coordinate("e").unwrap_err(),
        "Coordinates must have exactly two characters"
    );
    assert_eq!(parse_coordinate("i4").unwrap_err(), "Invalid column i");
    assert_eq!(parse_coordinate("e9").unwrap_err(), "Invalid row 9");
}
