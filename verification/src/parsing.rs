//! The algebraic coordinate parser: a two-character string, file letter
//! then rank digit.

use vstd::prelude::*;
use vstd::string::StrSliceExecFns;

use crate::coordinates::ColumnIndex;
use crate::coordinates::Coordinate;
use crate::coordinates::RowIndex;
use crate::piece::push_char;

verus! {

/// The column a file letter denotes, in either case.
pub open spec fn spec_column_of_char(c: char) -> Option<ColumnIndex> {
    if c == 'a' || c == 'A' {
        Some(ColumnIndex::A)
    } else if c == 'b' || c == 'B' {
        Some(ColumnIndex::B)
    } else if c == 'c' || c == 'C' {
        Some(ColumnIndex::C)
    } else if c == 'd' || c == 'D' {
        Some(ColumnIndex::D)
    } else if c == 'e' || c == 'E' {
        Some(ColumnIndex::E)
    } else if c == 'f' || c == 'F' {
        Some(ColumnIndex::F)
    } else if c == 'g' || c == 'G' {
        Some(ColumnIndex::G)
    } else if c == 'h' || c == 'H' {
        Some(ColumnIndex::H)
    } else {
        None
    }
}

/// The row a rank digit denotes.
pub open spec fn spec_row_of_char(c: char) -> Option<RowIndex> {
    if c == '1' {
        Some(RowIndex::_1)
    } else if c == '2' {
        Some(RowIndex::_2)
    } else if c == '3' {
        Some(RowIndex::_3)
    } else if c == '4' {
        Some(RowIndex::_4)
    } else if c == '5' {
        Some(RowIndex::_5)
    } else if c == '6' {
        Some(RowIndex::_6)
    } else if c == '7' {
        Some(RowIndex::_7)
    } else if c == '8' {
        Some(RowIndex::_8)
    } else {
        None
    }
}

/// What parsing an algebraic coordinate yields: the square, or the exact
/// message naming the first offending character or the length.
pub open spec fn spec_parse_coordinate(s: Seq<char>) -> Result<Coordinate, Seq<char>> {
    if s.len() != 2 {
        Err("Coordinates must have exactly two characters"@)
    } else {
        match spec_column_of_char(s[0]) {
            None => Err("Invalid column "@.push(s[0])),
            Some(column) => match spec_row_of_char(s[1]) {
                None => Err("Invalid row "@.push(s[1])),
                Some(row) => Ok(Coordinate { row, column }),
            },
        }
    }
}

pub fn column_of_char(c: char) -> (r: Option<ColumnIndex>)
    ensures
        r == spec_column_of_char(c),
{
    match c {
        'a' | 'A' => Some(ColumnIndex::A),
        'b' | 'B' => Some(ColumnIndex::B),
        'c' | 'C' => Some(ColumnIndex::C),
        'd' | 'D' => Some(ColumnIndex::D),
        'e' | 'E' => Some(ColumnIndex::E),
        'f' | 'F' => Some(ColumnIndex::F),
        'g' | 'G' => Some(ColumnIndex::G),
        'h' | 'H' => Some(ColumnIndex::H),
        _ => None,
    }
}

pub fn row_of_char(c: char) -> (r: Option<RowIndex>)
    ensures
        r == spec_row_of_char(c),
{
    match c {
        '1' => Some(RowIndex::_1),
        '2' => Some(RowIndex::_2),
        '3' => Some(RowIndex::_3),
        '4' => Some(RowIndex::_4),
        '5' => Some(RowIndex::_5),
        '6' => Some(RowIndex::_6),
        '7' => Some(RowIndex::_7),
        '8' => Some(RowIndex::_8),
        _ => None,
    }
}

/// Parse a coordinate from two characters, file letter then rank digit.
pub fn parse_coordinate_chars(c0: char, c1: char) -> (r: Result<Coordinate, String>)
    ensures
        match r {
            Ok(c) => spec_parse_coordinate(seq![c0, c1]) == Ok::<Coordinate, Seq<char>>(c),
            Err(msg) => spec_parse_coordinate(seq![c0, c1]) == Err::<Coordinate, Seq<char>>(msg@),
        },
{
    match column_of_char(c0) {
        None => {
            let mut msg = String::from_str("Invalid column ");
            push_char(&mut msg, c0);
            Err(msg)
        },
        Some(column) => match row_of_char(c1) {
            None => {
                let mut msg = String::from_str("Invalid row ");
                push_char(&mut msg, c1);
                Err(msg)
            },
            Some(row) => Ok(Coordinate { row, column }),
        },
    }
}

/// Parse an algebraic coordinate such as `e4`: a file letter in either
/// case followed by a rank digit.
pub fn parse_coordinate(input: &str) -> (r: Result<Coordinate, String>)
    ensures
        match r {
            Ok(c) => spec_parse_coordinate(input@) == Ok::<Coordinate, Seq<char>>(c),
            Err(msg) => spec_parse_coordinate(input@) == Err::<Coordinate, Seq<char>>(msg@),
        },
{
    if input.unicode_len() != 2 {
        return Err(String::from_str("Coordinates must have exactly two characters"));
    }
    let c0 = input.get_char(0);
    let c1 = input.get_char(1);
    let r = parse_coordinate_chars(c0, c1);
    proof {
        assert(input@ =~= seq![c0, c1]);
    }
    r
}

} // verus!
