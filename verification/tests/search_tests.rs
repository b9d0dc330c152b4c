use chess::ai::AiPlayer;
use chess::ai::get_best_move;
use chess::ai::heuristic;
use chess::board::BoardState;
use chess::cli::InteractiveCliPlayer;
use chess::cli::print_square;
use chess::cli::square_colour;
use chess::coordinates::ColumnIndex;
use chess::coordinates::Coordinate;
use chess::coordinates::RowIndex;
use chess::grid::board_iterator;
use chess::piece::Colour;
use chess::piece::Piece;
use chess::piece::PieceType;

fn snapshot(state: &BoardState) -> (Vec<Option<Piece>>, Colour, Option<Coordinate>, bool) {
    let mut squares = Vec::new();
    for c in board_iterator() {
        squares.push(state.board.at(c));
    }
    (
        squares,
        state.current_player,
        state.en_passant_availability,
        state.moves.can_undo(),
    )
}

#[test]
fn heuristic_is_balanced_at_the_start() {
    let state = BoardState::new();
    assert_eq!(heuristic(&state), 0);
}

#[test]
fn heuristic_counts_material_with_position_weights() {
    // a single white pawn on e4: value 1, rank weight 100, file weight 100
    let state = BoardState::from_str("7k/8/8/8/4P3/8/8/K7 w - - 0 1").unwrap();
    let kings = heuristic(&BoardState::from_str("7k/8/8/8/8/8/8/K7 w - - 0 1").unwrap());
    assert_eq!(heuristic(&state) - kings, 10000);
    // a black queen on a8: value 9, both weights 85
    let q = BoardState::from_str("q6k/8/8/8/8/8/8/K7 w - - 0 1").unwrap();
    assert_eq!(heuristic(&q) - kings, -9 * 85 * 85);
}

#[test]
fn piece_values() {
    let value = |piece_type| Piece { piece_type, colour: Colour::White, has_moved: false }
        .get_value();
    assert_eq!(value(PieceType::Pawn), 1);
    assert_eq!(value(PieceType::Knight), 3);
    assert_eq!(value(PieceType::Bishop), 4);
    assert_eq!(value(PieceType::Rook), 5);
    assert_eq!(value(PieceType::Queen), 9);
    assert_eq!(value(PieceType::King), 0);
    let black = Piece { piece_type: PieceType::Queen, colour: Colour::Black, has_moved: false };
    assert_eq!(black.get_value(), -9);
}

#[test]
fn search_returns_a_legal_move_that_wins_material() {
    let mut state = BoardState::from_str("6k1/5ppp/8/8/8/8/5PPP/R5K1 w - - 0 1").unwrap();
    let m = get_best_move(&mut state, 1);
    assert!(state.is_legal_move(m).is_ok());
    state.try_move(m).unwrap();
    assert!(!state.is_checkmate());
}

#[test]
fn search_leaves_the_state_as_found() {
    let mut state = BoardState::new();
    let before = snapshot(&state);
    for depth in 1..=2u8 {
        let player = AiPlayer::new(depth);
        let m = player.get_move(&mut state);
        assert_eq!(snapshot(&state), before);
        assert!(state.is_legal_move(m).is_ok());
        assert_eq!(snapshot(&state), before);
    }
}

#[test]
fn search_plays_a_whole_short_game() {
    let mut state = BoardState::new();
    let white = AiPlayer::new(1);
    let black = AiPlayer::new(1);
    for _ in 0..6 {
        if state.is_checkmate() {
            break;
        }
        let m = match state.get_next_player() {
            Colour::White => white.get_move(&mut state),
            Colour::Black => black.get_move(&mut state),
        };
        state.try_move(m).unwrap();
    }
}

#[test]
fn search_takes_the_hanging_queen() {
    // a one-ply search maximises the heuristic, and no move comes close
    // to capturing the queen
    let mut state = BoardState::from_str("q5k1/8/8/8/8/8/8/R5K1 w - - 0 1").unwrap();
    let m = get_best_move(&mut state, 1);
    assert_eq!(
        m,
        chess::coordinates::Move {
            from: Coordinate { row: RowIndex::_1, column: ColumnIndex::A },
            to: Coordinate { row: RowIndex::_8, column: ColumnIndex::A },
        }
    );
}

#[test]
fn depth_zero_is_searched_as_depth_one() {
    let mut state = BoardState::new();
    let m = get_best_move(&mut state, 0);
    assert!(state.is_legal_move(m).is_ok());
}

#[test]
fn cli_helpers() {
    let _player = InteractiveCliPlayer::new();
    assert_eq!(square_colour(RowIndex::_1, ColumnIndex::A), Colour::Black);
    assert_eq!(square_colour(RowIndex::_1, ColumnIndex::B), Colour::White);
    assert_eq!(square_colour(RowIndex::_8, ColumnIndex::A), Colour::White);
    let pawn = Piece { piece_type: PieceType::Pawn, colour: Colour::White, has_moved: false };
    assert_eq!(print_square(Some(pawn), RowIndex::_2, ColumnIndex::E), "\u{2659}");
    assert_eq!(print_square(None, RowIndex::_1, ColumnIndex::A), "\u{25FC}");
    assert_eq!(print_square(None, RowIndex::_1, ColumnIndex::B), "\u{25FB}");
    let glyphs = Piece { piece_type: PieceType::King, colour: Colour::Black, has_moved: false };
    assert_eq!(glyphs.glyph(), '\u{265A}');
}
