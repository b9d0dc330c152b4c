//! The pieces of the command-line front end that compute rather than
//! read or print: the interactive player's identity, the colouring of
//! empty squares, and the text of one square.

use vstd::prelude::*;

use crate::coordinates::ColumnIndex;
use crate::coordinates::RowIndex;
use crate::piece::Colour;
use crate::piece::Piece;
use crate::piece::push_char;

verus! {

/// A player that asks a person for moves; the asking itself lives with
/// the front end.
pub struct InteractiveCliPlayer {}

impl InteractiveCliPlayer {
    pub fn new() -> Self {
        InteractiveCliPlayer {  }
    }
}

/// The colour of the square itself on a printed board: White where rank
/// and file positions have equal parity.
pub open spec fn spec_square_colour(rank: RowIndex, file: ColumnIndex) -> Colour {
    if (rank.idx() + file.idx()) % 2 == 0 {
        Colour::White
    } else {
        Colour::Black
    }
}

pub fn square_colour(rank: RowIndex, file: ColumnIndex) -> (c: Colour)
    ensures
        c == spec_square_colour(rank, file),
{
    if (rank.index() + file.index()) % 2 == 0 {
        Colour::White
    } else {
        Colour::Black
    }
}

/// The one character a printed square shows: the piece's glyph, or the
/// square's own colour.
pub open spec fn spec_square_char(square: Option<Piece>, rank: RowIndex, file: ColumnIndex) -> char {
    match square {
        Some(p) => p.spec_glyph(),
        None => {
            if spec_square_colour(rank, file) == Colour::White {
                '\u{25FB}'
            } else {
                '\u{25FC}'
            }
        },
    }
}

/// The text of one printed square.
pub fn print_square(square: Option<Piece>, rank: RowIndex, file: ColumnIndex) -> (s: String)
    ensures
        s@ == seq![spec_square_char(square, rank, file)],
{
    let c = match square {
        Some(piece) => piece.glyph(),
        None => match square_colour(rank, file) {
            Colour::White => '\u{25FB}',
            Colour::Black => '\u{25FC}',
        },
    };
    let mut s = String::new();
    push_char(&mut s, c);
    proof {
        assert(s@ =~= seq![spec_square_char(square, rank, file)]);
    }
    s
}

} // verus!
