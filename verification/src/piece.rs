//! Piece kinds, colours, and the piece itself with its `has_moved` flag.

use vstd::prelude::*;

use crate::coordinates::RowIndex;

verus! {

#[derive(Debug, Copy, Clone, Eq, PartialEq, Structural)]
pub enum PieceType {
    Pawn,
    Rook,
    Knight,
    Bishop,
    Queen,
    King,
}

#[derive(Debug, Copy, Clone, Eq, PartialEq, Structural)]
pub enum Colour {
    Black,
    White,
}

impl Colour {
    /// The opposing colour.
    pub open spec fn spec_other(self) -> Colour {
        match self {
            Colour::White => Colour::Black,
            Colour::Black => Colour::White,
        }
    }

    #[verifier::when_used_as_spec(spec_other)]
    pub fn other(self) -> (c: Colour)
        ensures
            c == self.spec_other(),
    {
        match self {
            Colour::White => Colour::Black,
            Colour::Black => Colour::White,
        }
    }

    /// The rank this colour's major pieces start on: rank 1 for White,
    /// rank 8 for Black.
    pub fn home_rank(&self) -> (r: RowIndex)
        ensures
            r == self.spec_home_rank(),
    {
        match self {
            Colour::White => RowIndex::_1,
            Colour::Black => RowIndex::_8,
        }
    }

    pub open spec fn spec_home_rank(self) -> RowIndex {
        match self {
            Colour::White => RowIndex::_1,
            Colour::Black => RowIndex::_8,
        }
    }

    /// The rank this colour's pawns start on: rank 2 for White, rank 7 for
    /// Black.
    pub fn home_pawn_rank(&self) -> (r: RowIndex)
        ensures
            r == self.spec_home_pawn_rank(),
    {
        match self {
            Colour::White => RowIndex::_2,
            Colour::Black => RowIndex::_7,
        }
    }

    pub open spec fn spec_home_pawn_rank(self) -> RowIndex {
        match self {
            Colour::White => RowIndex::_2,
            Colour::Black => RowIndex::_7,
        }
    }

    /// The rank increment of this colour's forward direction: row indices
    /// decrease as White advances and increase as Black advances.
    pub open spec fn row_increment(self) -> int {
        match self {
            Colour::White => -1,
            Colour::Black => 1,
        }
    }
}

impl Default for Colour {
    fn default() -> (c: Self)
        ensures
            c == Colour::White,
    {
        Colour::White
    }
}

#[derive(Debug, Copy, Clone, Eq, PartialEq, Structural)]
pub struct Piece {
    pub piece_type: PieceType,
    pub colour: Colour,
    pub has_moved: bool,
}

impl Piece {
    /// A piece that has not yet moved.
    pub fn new(piece_type: PieceType, colour: Colour) -> (p: Self)
        ensures
            p == (Piece { piece_type, colour, has_moved: false }),
    {
        Piece { piece_type, colour, has_moved: false }
    }

    /// The square content a single character denotes: letters and white
    /// glyphs for White, lower case and black glyphs for Black; `_`, a
    /// space and the two square glyphs denote an empty square; anything
    /// else is rejected.
    pub open spec fn spec_from_char(c: char) -> Result<Option<Piece>, Seq<char>> {
        if c == 'P' || c == '\u{2659}' {
            Ok(Some(Piece { piece_type: PieceType::Pawn, colour: Colour::White, has_moved: false }))
        } else if c == 'R' || c == '\u{2656}' {
            Ok(Some(Piece { piece_type: PieceType::Rook, colour: Colour::White, has_moved: false }))
        } else if c == 'N' || c == '\u{2658}' {
            Ok(
                Some(
                    Piece { piece_type: PieceType::Knight, colour: Colour::White, has_moved: false },
                ),
            )
        } else if c == 'B' || c == '\u{2657}' {
            Ok(
                Some(
                    Piece { piece_type: PieceType::Bishop, colour: Colour::White, has_moved: false },
                ),
            )
        } else if c == 'Q' || c == '\u{2655}' {
            Ok(
                Some(Piece { piece_type: PieceType::Queen, colour: Colour::White, has_moved: false }),
            )
        } else if c == 'K' || c == '\u{2654}' {
            Ok(Some(Piece { piece_type: PieceType::King, colour: Colour::White, has_moved: false }))
        } else if c == 'p' || c == '\u{265F}' {
            Ok(Some(Piece { piece_type: PieceType::Pawn, colour: Colour::Black, has_moved: false }))
        } else if c == 'r' || c == '\u{265C}' {
            Ok(Some(Piece { piece_type: PieceType::Rook, colour: Colour::Black, has_moved: false }))
        } else if c == 'n' || c == '\u{265E}' {
            Ok(
                Some(
                    Piece { piece_type: PieceType::Knight, colour: Colour::Black, has_moved: false },
                ),
            )
        } else if c == 'b' || c == '\u{265D}' {
            Ok(
                Some(
                    Piece { piece_type: PieceType::Bishop, colour: Colour::Black, has_moved: false },
                ),
            )
        } else if c == 'q' || c == '\u{265B}' {
            Ok(
                Some(Piece { piece_type: PieceType::Queen, colour: Colour::Black, has_moved: false }),
            )
        } else if c == 'k' || c == '\u{265A}' {
            Ok(Some(Piece { piece_type: PieceType::King, colour: Colour::Black, has_moved: false }))
        } else if c == '_' || c == ' ' || c == '\u{25FB}' || c == '\u{25FC}' {
            Ok(None)
        } else {
            Err("Invalid character for square "@.push(c))
        }
    }

    /// Decode one character of a board description.
    pub fn from_char(c: char) -> (r: Result<Option<Self>, String>)
        ensures
            match r {
                Ok(sq) => Self::spec_from_char(c) == Ok::<Option<Piece>, Seq<char>>(sq),
                Err(msg) => Self::spec_from_char(c) == Err::<Option<Piece>, Seq<char>>(msg@),
            },
    {
        let square = match c {
            'P' | '\u{2659}' => Piece::new(PieceType::Pawn, Colour::White),
            'R' | '\u{2656}' => Piece::new(PieceType::Rook, Colour::White),
            'N' | '\u{2658}' => Piece::new(PieceType::Knight, Colour::White),
            'B' | '\u{2657}' => Piece::new(PieceType::Bishop, Colour::White),
            'Q' | '\u{2655}' => Piece::new(PieceType::Queen, Colour::White),
            'K' | '\u{2654}' => Piece::new(PieceType::King, Colour::White),
            'p' | '\u{265F}' => Piece::new(PieceType::Pawn, Colour::Black),
            'r' | '\u{265C}' => Piece::new(PieceType::Rook, Colour::Black),
            'n' | '\u{265E}' => Piece::new(PieceType::Knight, Colour::Black),
            'b' | '\u{265D}' => Piece::new(PieceType::Bishop, Colour::Black),
            'q' | '\u{265B}' => Piece::new(PieceType::Queen, Colour::Black),
            'k' | '\u{265A}' => Piece::new(PieceType::King, Colour::Black),
            '_' | ' ' | '\u{25FB}' | '\u{25FC}' => {
                return Ok(None);
            },
            _ => {
                let mut msg = String::from_str("Invalid character for square ");
                push_char(&mut msg, c);
                proof {
                    reveal_strlit("Invalid character for square ");
                }
                return Err(msg);
            },
        };
        Ok(Some(square))
    }

    /// The weight of this piece for the position heuristic, in hundredths
    /// of a pawn-unit: a pawn is 1, a knight 3, a bishop 4, a rook 5, a
    /// queen 9 and a king 0; White counts positive and Black negative.
    pub open spec fn spec_value(self) -> int {
        let v: int = match self.piece_type {
            PieceType::Pawn => 1,
            PieceType::Knight => 3,
            PieceType::Bishop => 4,
            PieceType::Rook => 5,
            PieceType::Queen => 9,
            PieceType::King => 0,
        };
        match self.colour {
            Colour::White => v,
            Colour::Black => -v,
        }
    }

    pub fn get_value(&self) -> (v: i64)
        ensures
            v == self.spec_value(),
    {
        let v: i64 = match self.piece_type {
            PieceType::Pawn => 1,
            PieceType::Knight => 3,
            PieceType::Bishop => 4,
            PieceType::Rook => 5,
            PieceType::Queen => 9,
            PieceType::King => 0,
        };
        match self.colour {
            Colour::White => v,
            Colour::Black => -v,
        }
    }

    /// The display glyph for this piece.
    pub fn glyph(&self) -> (c: char)
        ensures
            c == self.spec_glyph(),
    {
        match (self.colour, self.piece_type) {
            (Colour::White, PieceType::Pawn) => '\u{2659}',
            (Colour::White, PieceType::Rook) => '\u{2656}',
            (Colour::White, PieceType::Knight) => '\u{2658}',
            (Colour::White, PieceType::Bishop) => '\u{2657}',
            (Colour::White, PieceType::Queen) => '\u{2655}',
            (Colour::White, PieceType::King) => '\u{2654}',
            (Colour::Black, PieceType::Pawn) => '\u{265F}',
            (Colour::Black, PieceType::Rook) => '\u{265C}',
            (Colour::Black, PieceType::Knight) => '\u{265E}',
            (Colour::Black, PieceType::Bishop) => '\u{265D}',
            (Colour::Black, PieceType::Queen) => '\u{265B}',
            (Colour::Black, PieceType::King) => '\u{265A}',
        }
    }

    pub open spec fn spec_glyph(self) -> char {
        match (self.colour, self.piece_type) {
            (Colour::White, PieceType::Pawn) => '\u{2659}',
            (Colour::White, PieceType::Rook) => '\u{2656}',
            (Colour::White, PieceType::Knight) => '\u{2658}',
            (Colour::White, PieceType::Bishop) => '\u{2657}',
            (Colour::White, PieceType::Queen) => '\u{2655}',
            (Colour::White, PieceType::King) => '\u{2654}',
            (Colour::Black, PieceType::Pawn) => '\u{265F}',
            (Colour::Black, PieceType::Rook) => '\u{265C}',
            (Colour::Black, PieceType::Knight) => '\u{265E}',
            (Colour::Black, PieceType::Bishop) => '\u{265D}',
            (Colour::Black, PieceType::Queen) => '\u{265B}',
            (Colour::Black, PieceType::King) => '\u{265A}',
        }
    }
}

/// The piece with its `has_moved` flag replaced, when one is there.
pub open spec fn set_moved(s: Option<Piece>, is_moved: bool) -> Option<Piece> {
    match s {
        Some(p) => Some(Piece { has_moved: is_moved, ..p }),
        None => None,
    }
}

/// Replace the `has_moved` flag of the piece, when one is there.
pub fn moved(s: Option<Piece>, is_moved: bool) -> (r: Option<Piece>)
    ensures
        r == set_moved(s, is_moved),
{
    match s {
        Some(p) => Some(Piece { piece_type: p.piece_type, colour: p.colour, has_moved: is_moved }),
        None => None,
    }
}

/// Relies on String::push: appends exactly the given character.
#[verifier::external_body]
pub fn push_char(s: &mut String, c: char)
    ensures
        final(s)@ == old(s)@.push(c),
{
    s.push(c);
}

} // verus!
