//! The FEN decoder: the six space-separated fields of a
//! Forsyth-Edwards record, turned into a board state. The `has_moved`
//! attribute of each piece cannot be read off a plain board, so it is
//! reconstructed from the castling-availability field and the pawn ranks.

use vstd::prelude::*;
use vstd::string::StrSliceExecFns;
use vstd::string::StringExecFns;

use crate::board::BoardState;
use crate::coordinates::Coordinate;
use crate::coordinates::ColumnIndex;
use crate::coordinates::col_of;
use crate::grid::Board;
use crate::grid::Square;
use crate::moves::CastlingAvailability;
use crate::moves::MoveRecords;
use crate::moves::StateModel;
use crate::moves::colour_idx;
use crate::parsing::parse_coordinate_chars;
use crate::parsing::spec_parse_coordinate;
use crate::piece::Colour;
use crate::piece::Piece;
use crate::piece::PieceType;
use crate::rules::pawn_home_row;

verus! {

/// Why a FEN record is rejected: a wrong count of fields, ranks or files,
/// an unusable character, or a bad en-passant coordinate.
pub enum FenErr {
    FieldCount(int),
    BadPlayer(Seq<char>),
    CastlingBlank,
    CastlingChar(char),
    CastlingRepeat(char),
    RowCount(int),
    SquareChar(char),
    RowWidth(int, int),
    Target(Seq<char>),
}

/// Position of the first `sep` in `s` at or after `from`; the length of
/// `s` when there is none.
pub open spec fn find_char(s: Seq<char>, sep: char, from: int) -> int
    decreases s.len() - from,
    when 0 <= from <= s.len()
{
    if from >= s.len() {
        s.len() as int
    } else if s[from] == sep {
        from
    } else {
        find_char(s, sep, from + 1)
    }
}

/// The first separator position is within bounds.
pub proof fn lemma_find_char_bounds(s: Seq<char>, sep: char, from: int)
    requires
        0 <= from <= s.len(),
    ensures
        from <= find_char(s, sep, from) <= s.len(),
    decreases s.len() - from,
{
    if from < s.len() && s[from] != sep {
        lemma_find_char_bounds(s, sep, from + 1);
    }
}

/// The pieces of `s` from `start` on, cut at every `sep`; the separator
/// belongs to no piece, and `n` separators yield `n + 1` pieces.
pub open spec fn split_from(s: Seq<char>, sep: char, start: int) -> Seq<Seq<char>>
    decreases s.len() - start,
    when 0 <= start <= s.len()
    via split_from_dec
{
    let i = find_char(s, sep, start);
    if i >= s.len() {
        seq![s.subrange(start, s.len() as int)]
    } else {
        seq![s.subrange(start, i)] + split_from(s, sep, i + 1)
    }
}

#[via_fn]
proof fn split_from_dec(s: Seq<char>, sep: char, start: int) {
    lemma_find_char_bounds(s, sep, start);
}

pub open spec fn split_on(s: Seq<char>, sep: char) -> Seq<Seq<char>> {
    split_from(s, sep, 0)
}

/// The views of a vector of character vectors.
pub open spec fn views_of(r: Seq<Vec<char>>) -> Seq<Seq<char>> {
    r.map_values(|v: Vec<char>| v@)
}

/// No castling available at all.
pub open spec fn ca_none() -> Seq<bool> {
    Seq::new(16, |i: int| false)
}

/// A field that does not open with one of `kKqQ` is read as Shredder
/// notation: every character a file letter.
pub open spec fn is_shredder(field: Seq<char>) -> bool {
    !(field[0] == 'k' || field[0] == 'K' || field[0] == 'q' || field[0] == 'Q')
}

/// The colour and starting-rook file one castling-availability character
/// denotes. In the standard notation `K`/`k` mark the file-A rook and
/// `Q`/`q` the file-H rook; in Shredder notation the letter is the file
/// itself, upper case for White.
pub open spec fn castle_char(c: char, shredder: bool) -> Option<(Colour, ColumnIndex)> {
    if !shredder {
        if c == 'k' {
            Some((Colour::Black, ColumnIndex::A))
        } else if c == 'K' {
            Some((Colour::White, ColumnIndex::A))
        } else if c == 'q' {
            Some((Colour::Black, ColumnIndex::H))
        } else if c == 'Q' {
            Some((Colour::White, ColumnIndex::H))
        } else {
            None
        }
    } else {
        if 'a' <= c && c <= 'h' {
            Some((Colour::Black, col_of(c as int - 'a' as int)))
        } else if 'A' <= c && c <= 'H' {
            Some((Colour::White, col_of(c as int - 'A' as int)))
        } else {
            None
        }
    }
}

pub open spec fn parse_castling_from(
    field: Seq<char>,
    i: int,
    flags: Seq<bool>,
    shredder: bool,
) -> Result<Seq<bool>, FenErr>
    decreases field.len() - i,
    when 0 <= i <= field.len()
{
    if i >= field.len() {
        Ok(flags)
    } else {
        match castle_char(field[i], shredder) {
            None => Err(FenErr::CastlingChar(field[i])),
            Some(cf) => {
                if flags[colour_idx(cf.0) * 8 + cf.1.idx()] {
                    Err(FenErr::CastlingRepeat(field[i]))
                } else {
                    parse_castling_from(
                        field,
                        i + 1,
                        flags.update(colour_idx(cf.0) * 8 + cf.1.idx(), true),
                        shredder,
                    )
                }
            },
        }
    }
}

/// What the castling-availability field denotes: one flag per colour and
/// starting-rook file, `-` for none, repeated characters rejected.
pub open spec fn parse_castling_spec(field: Seq<char>) -> Result<Seq<bool>, FenErr> {
    if field.len() == 0 {
        Err(FenErr::CastlingBlank)
    } else if field == seq!['-'] {
        Ok(ca_none())
    } else {
        parse_castling_from(field, 0, ca_none(), is_shredder(field))
    }
}

/// Some rook of `colour` is still available for castling.
pub open spec fn any_flag_from(flags: Seq<bool>, ci: int, j: int) -> bool
    decreases 8 - j,
    when 0 <= j <= 8
{
    if j >= 8 {
        false
    } else {
        flags[ci * 8 + j] || any_flag_from(flags, ci, j + 1)
    }
}

pub open spec fn any_flag(flags: Seq<bool>, colour: Colour) -> bool {
    any_flag_from(flags, colour_idx(colour), 0)
}

/// The reconstructed `has_moved` of a freshly decoded piece: a rook is
/// unmoved exactly when its file is flagged for its colour, a pawn
/// exactly when it stands on its home pawn rank, a king exactly when some
/// castling availability is left for its colour; every other piece is
/// assumed moved.
pub open spec fn guess_piece(p: Piece, row: int, col: int, flags: Seq<bool>) -> Piece {
    match p.piece_type {
        PieceType::Rook => Piece { has_moved: !flags[colour_idx(p.colour) * 8 + col], ..p },
        PieceType::Pawn => Piece { has_moved: pawn_home_row(p.colour) != row, ..p },
        PieceType::King => Piece { has_moved: !any_flag(flags, p.colour), ..p },
        _ => Piece { has_moved: true, ..p },
    }
}

/// One rank description read left to right: digits leave that many empty
/// squares, letters place pieces with their `has_moved` reconstructed; a
/// rank must come to exactly eight files.
pub open spec fn parse_row_from(
    rc: Seq<char>,
    k: int,
    row_idx: int,
    flags: Seq<bool>,
    acc: Seq<Square>,
) -> Result<Seq<Square>, FenErr>
    decreases rc.len() - k,
    when 0 <= k <= rc.len()
{
    if k >= rc.len() {
        if acc.len() == 8 {
            Ok(acc)
        } else {
            Err(FenErr::RowWidth(acc.len() as int, row_idx))
        }
    } else {
        let c = rc[k];
        if '1' <= c && c <= '8' {
            let d = c as int - '0' as int;
            if acc.len() + d > 8 {
                Err(FenErr::RowWidth(acc.len() + d, row_idx))
            } else {
                parse_row_from(rc, k + 1, row_idx, flags, acc + Seq::new(d as nat, |i: int| None))
            }
        } else {
            match Piece::spec_from_char(c) {
                Err(_) => Err(FenErr::SquareChar(c)),
                Ok(sq) => {
                    if acc.len() >= 8 {
                        Err(FenErr::RowWidth(acc.len() as int + 1, row_idx))
                    } else {
                        match sq {
                            None => parse_row_from(rc, k + 1, row_idx, flags, acc.push(None)),
                            Some(p) => parse_row_from(
                                rc,
                                k + 1,
                                row_idx,
                                flags,
                                acc.push(Some(guess_piece(p, row_idx, acc.len() as int, flags))),
                            ),
                        }
                    }
                },
            }
        }
    }
}

pub open spec fn parse_rows_from(
    rows: Seq<Seq<char>>,
    i: int,
    flags: Seq<bool>,
    acc: Seq<Square>,
) -> Result<Seq<Square>, FenErr>
    decreases 8 - i,
    when 0 <= i <= 8 && rows.len() == 8
{
    if i >= 8 {
        Ok(acc)
    } else {
        match parse_row_from(rows[i], 0, i, flags, Seq::empty()) {
            Err(e) => Err(e),
            Ok(row) => parse_rows_from(rows, i + 1, flags, acc + row),
        }
    }
}

/// What the piece-placement field denotes: eight rank descriptions, rank
/// 8 first, separated by `/`.
pub open spec fn parse_board_spec(field: Seq<char>, flags: Seq<bool>) -> Result<
    Seq<Square>,
    FenErr,
> {
    let rows = split_on(field, '/');
    if rows.len() != 8 {
        Err(FenErr::RowCount(rows.len() as int))
    } else {
        parse_rows_from(rows, 0, flags, Seq::empty())
    }
}

/// What the active-colour field denotes.
pub open spec fn parse_player_spec(field: Seq<char>) -> Result<Colour, FenErr> {
    if field == seq!['b'] || field == seq!['B'] {
        Ok(Colour::Black)
    } else if field == seq!['w'] || field == seq!['W'] {
        Ok(Colour::White)
    } else {
        Err(FenErr::BadPlayer(field))
    }
}

/// What the en-passant field denotes: `-` or an algebraic coordinate.
pub open spec fn parse_ep_spec(field: Seq<char>) -> Result<Option<Coordinate>, FenErr> {
    if field.len() == 1 && field[0] == '-' {
        Ok(None)
    } else {
        match spec_parse_coordinate(field) {
            Ok(c) => Ok(Some(c)),
            Err(msg) => Err(FenErr::Target(msg)),
        }
    }
}

/// What a whole FEN record denotes: exactly six space-separated fields;
/// the active colour, castling availability and en-passant target are
/// read before the board, and the two clock fields are accepted unread.
pub open spec fn fen_decode(s: Seq<char>) -> Result<StateModel, FenErr> {
    let fields = split_on(s, ' ');
    if fields.len() != 6 {
        Err(FenErr::FieldCount(fields.len() as int))
    } else {
        match parse_player_spec(fields[1]) {
            Err(e) => Err(e),
            Ok(player) => match parse_castling_spec(fields[2]) {
                Err(e) => Err(e),
                Ok(flags) => match parse_ep_spec(fields[3]) {
                    Err(e) => Err(e),
                    Ok(ep) => match parse_board_spec(fields[0], flags) {
                        Err(e) => Err(e),
                        Ok(board) => Ok(StateModel { player, board, ep }),
                    },
                },
            },
        }
    }
}

/// The character of one decimal digit.
pub open spec fn digit_char(d: int) -> char {
    if d == 0 {
        '0'
    } else if d == 1 {
        '1'
    } else if d == 2 {
        '2'
    } else if d == 3 {
        '3'
    } else if d == 4 {
        '4'
    } else if d == 5 {
        '5'
    } else if d == 6 {
        '6'
    } else if d == 7 {
        '7'
    } else if d == 8 {
        '8'
    } else {
        '9'
    }
}

/// The decimal text of a count, most significant digit first.
pub open spec fn dec_digits(n: int) -> Seq<char>
    decreases n,
    when n >= 0
{
    if n < 10 {
        seq![digit_char(n)]
    } else {
        dec_digits(n / 10).push(digit_char(n % 10))
    }
}

/// The exact message text of each rejection, citing the offending count,
/// character or field.
pub open spec fn fen_err_text(k: FenErr) -> Seq<char> {
    match k {
        FenErr::FieldCount(n) => "FEN PARSE ERROR: wrong number of fields in record ("@
            + dec_digits(n) + "/6)"@,
        FenErr::BadPlayer(f) => "FEN PARSE ERROR: next player must be 'b' or 'w' (not "@ + f
            + ")"@,
        FenErr::CastlingBlank => "FEN PARSE ERROR: castling availability must not be blank"@,
        FenErr::CastlingChar(c) => "FEN PARSE ERROR: invalid character in availability field "@
            .push(c),
        FenErr::CastlingRepeat(c) => "FEN PARSE ERROR: repeated character in availability field "@
            .push(c),
        FenErr::RowCount(n) => "FEN PARSE ERROR: wrong number of rows ("@ + dec_digits(n) + "/8)"@,
        FenErr::SquareChar(c) => "Invalid character for square "@.push(c),
        FenErr::RowWidth(n, row) => "FEN PARSE ERROR: wrong number of pieces ("@ + dec_digits(n)
            + "/8) in row "@ + dec_digits(row),
        FenErr::Target(msg) => msg,
    }
}

fn digit_str(d: usize) -> (s: &'static str)
    requires
        d < 10,
    ensures
        s@ == seq![digit_char(d as int)],
{
    proof {
        reveal_strlit("0");
        reveal_strlit("1");
        reveal_strlit("2");
        reveal_strlit("3");
        reveal_strlit("4");
        reveal_strlit("5");
        reveal_strlit("6");
        reveal_strlit("7");
        reveal_strlit("8");
        reveal_strlit("9");
    }
    let s = match d {
        0 => "0",
        1 => "1",
        2 => "2",
        3 => "3",
        4 => "4",
        5 => "5",
        6 => "6",
        7 => "7",
        8 => "8",
        _ => "9",
    };
    proof {
        assert(s@ =~= seq![digit_char(d as int)]);
    }
    s
}

/// The decimal text of a count, for error messages.
fn usize_to_string(n: usize) -> (s: String)
    ensures
        s@ == dec_digits(n as int),
    decreases n,
{
    if n < 10 {
        String::from_str(digit_str(n))
    } else {
        let mut s = usize_to_string(n / 10);
        s.append(digit_str(n % 10));
        proof {
            assert(s@ =~= dec_digits(n as int));
        }
        s
    }
}

/// Position of the first `sep` at or after `start`, as `find_char`.
fn find_sep(s: &Vec<char>, sep: char, start: usize) -> (r: usize)
    requires
        start <= s@.len(),
    ensures
        r == find_char(s@, sep, start as int),
        start <= r <= s@.len(),
{
    let mut i = start;
    while i < s.len() && s[i] != sep
        invariant
            start <= i <= s@.len(),
            find_char(s@, sep, start as int) == find_char(s@, sep, i as int),
        decreases s@.len() - i,
    {
        i = i + 1;
    }
    i
}

/// Cut `s` from `start` on at every `sep`, as `split_from`.
fn split_vec_from(s: &Vec<char>, sep: char, start: usize) -> (r: Vec<Vec<char>>)
    requires
        start <= s@.len(),
    ensures
        views_of(r@) == split_from(s@, sep, start as int),
        r@.len() >= 1,
    decreases s@.len() - start,
{
    let i = find_sep(s, sep, start);
    let mut head: Vec<char> = Vec::new();
    let mut k: usize = start;
    while k < i
        invariant
            start <= k <= i <= s@.len(),
            head@ == s@.subrange(start as int, k as int),
        decreases i - k,
    {
        head.push(s[k]);
        proof {
            assert(head@ =~= s@.subrange(start as int, k + 1));
        }
        k = k + 1;
    }
    if i == s.len() {
        let mut r: Vec<Vec<char>> = Vec::new();
        r.push(head);
        proof {
            assert(views_of(r@) =~= split_from(s@, sep, start as int));
        }
        r
    } else {
        let mut r = split_vec_from(s, sep, i + 1);
        let ghost tail = r@;
        r.insert(0, head);
        proof {
            let spec_r = split_from(s@, sep, start as int);
            assert(spec_r == seq![s@.subrange(start as int, i as int)] + split_from(
                s@,
                sep,
                i + 1,
            ));
            assert forall|j: int| 0 <= j < r@.len() implies views_of(r@)[j] == spec_r[j] by {
                if j == 0 {
                    assert(r@[0] == head);
                } else {
                    assert(r@[j] == tail[j - 1]);
                    assert(views_of(tail)[j - 1] == split_from(s@, sep, i + 1)[j - 1]);
                }
            }
            assert(views_of(r@) =~= spec_r);
        }
        r
    }
}

/// One colour's castling availability holds somewhere.
fn any_flag_exec(ca: &CastlingAvailability, colour: Colour) -> (r: bool)
    requires
        ca.wf(),
    ensures
        r == any_flag(ca.flags_seq(), colour),
{
    let mut j: usize = 0;
    let ghost ci = colour_idx(colour);
    while j < 8
        invariant
            ca.wf(),
            0 <= j <= 8,
            ci == colour_idx(colour),
            any_flag(ca.flags_seq(), colour) == any_flag_from(ca.flags_seq(), ci, j as int),
        decreases 8 - j,
    {
        if ca.available(colour, ColumnIndex::from_index(j)) {
            proof {
                crate::coordinates::lemma_col_of_idx(col_of(j as int));
            }
            assert(ca.flags_seq()[ci * 8 + j]);
            return true;
        }
        j = j + 1;
    }
    false
}

/// The castling-availability character's meaning, as `castle_char`.
fn castle_char_exec(c: char, shredder: bool) -> (r: Option<(Colour, ColumnIndex)>)
    ensures
        r == castle_char(c, shredder),
{
    if !shredder {
        match c {
            'k' => Some((Colour::Black, ColumnIndex::A)),
            'K' => Some((Colour::White, ColumnIndex::A)),
            'q' => Some((Colour::Black, ColumnIndex::H)),
            'Q' => Some((Colour::White, ColumnIndex::H)),
            _ => None,
        }
    } else {
        if 'a' <= c && c <= 'h' {
            let d = (c as u32 - 'a' as u32) as usize;
            Some((Colour::Black, ColumnIndex::from_index(d)))
        } else if 'A' <= c && c <= 'H' {
            let d = (c as u32 - 'A' as u32) as usize;
            Some((Colour::White, ColumnIndex::from_index(d)))
        } else {
            None
        }
    }
}

fn parse_castling_rec(
    field: &Vec<char>,
    i: usize,
    ca: &mut CastlingAvailability,
    shredder: bool,
) -> (r: Result<(), String>)
    requires
        old(ca).wf(),
        i <= field@.len(),
    ensures
        final(ca).wf(),
        match parse_castling_from(field@, i as int, old(ca).flags_seq(), shredder) {
            Ok(flags) => r is Ok && final(ca).flags_seq() == flags,
            Err(k) => r matches Err(msg) && msg@ == fen_err_text(k),
        },
    decreases field@.len() - i,
{
    if i == field.len() {
        return Ok(());
    }
    let c = field[i];
    match castle_char_exec(c, shredder) {
        None => {
            let mut msg = String::from_str(
                "FEN PARSE ERROR: invalid character in availability field ",
            );
            crate::piece::push_char(&mut msg, c);
            Err(msg)
        },
        Some((colour, file)) => {
            if ca.available(colour, file) {
                let mut msg = String::from_str(
                    "FEN PARSE ERROR: repeated character in availability field ",
                );
                crate::piece::push_char(&mut msg, c);
                Err(msg)
            } else {
                ca.set_available(colour, file);
                parse_castling_rec(field, i + 1, ca, shredder)
            }
        },
    }
}

/// Decode the castling-availability field: `-` for none, else `KQkq`
/// subsets, or file letters in Shredder notation; repeats are rejected.
pub fn parse_castling_availability(field: &Vec<char>) -> (r: Result<CastlingAvailability, String>)
    ensures
        match r {
            Ok(ca) => {
                &&& ca.wf()
                &&& parse_castling_spec(field@) == Ok::<Seq<bool>, FenErr>(ca.flags_seq())
            },
            Err(msg) => parse_castling_spec(field@) matches Err(k) && msg@ == fen_err_text(k),
        },
{
    if field.len() == 0 {
        return Err(String::from_str("FEN PARSE ERROR: castling availability must not be blank"));
    }
    let mut ca = CastlingAvailability::new_none();
    proof {
        assert(ca.flags_seq() =~= ca_none());
    }
    if field.len() == 1 && field[0] == '-' {
        proof {
            assert(field@ =~= seq!['-']);
        }
        return Ok(ca);
    }
    proof {
        assert(field@ != seq!['-']);
    }
    let c0 = field[0];
    let shredder = !(c0 == 'k' || c0 == 'K' || c0 == 'q' || c0 == 'Q');
    match parse_castling_rec(field, 0, &mut ca, shredder) {
        Ok(()) => Ok(ca),
        Err(e) => Err(e),
    }
}

/// The decoded piece with its `has_moved` reconstructed, as
/// `guess_piece`.
fn guess_piece_exec(p: Piece, row_idx: usize, col: usize, ca: &CastlingAvailability) -> (r: Piece)
    requires
        ca.wf(),
        row_idx < 8,
        col < 8,
    ensures
        r == guess_piece(p, row_idx as int, col as int, ca.flags_seq()),
{
    match p.piece_type {
        PieceType::Rook => {
            let file = ColumnIndex::from_index(col);
            proof {
                crate::coordinates::lemma_col_of_idx(col_of(col as int));
            }
            Piece {
                piece_type: p.piece_type,
                colour: p.colour,
                has_moved: !ca.available(p.colour, file),
            }
        },
        PieceType::Pawn => {
            let home: usize = match p.colour {
                Colour::White => 6,
                Colour::Black => 1,
            };
            Piece { piece_type: p.piece_type, colour: p.colour, has_moved: home != row_idx }
        },
        PieceType::King => Piece {
            piece_type: p.piece_type,
            colour: p.colour,
            has_moved: !any_flag_exec(ca, p.colour),
        },
        _ => Piece { piece_type: p.piece_type, colour: p.colour, has_moved: true },
    }
}

fn parse_row_rec(
    rc: &Vec<char>,
    k: usize,
    row_idx: usize,
    ca: &CastlingAvailability,
    acc: &mut Vec<Square>,
) -> (r: Result<(), String>)
    requires
        ca.wf(),
        k <= rc@.len(),
        old(acc)@.len() <= 8,
        row_idx < 8,
    ensures
        match parse_row_from(rc@, k as int, row_idx as int, ca.flags_seq(), old(acc)@) {
            Ok(row) => r is Ok && final(acc)@ == row && row.len() == 8,
            Err(k) => r matches Err(msg) && msg@ == fen_err_text(k),
        },
    decreases rc@.len() - k,
{
    if k == rc.len() {
        if acc.len() == 8 {
            return Ok(());
        } else {
            let mut msg = String::from_str("FEN PARSE ERROR: wrong number of pieces (");
            msg.append(usize_to_string(acc.len()).as_str());
            msg.append("/8) in row ");
            msg.append(usize_to_string(row_idx).as_str());
            return Err(msg);
        }
    }
    let c = rc[k];
    if '1' <= c && c <= '8' {
        let d = (c as u32 - '0' as u32) as usize;
        if acc.len() + d > 8 {
            let mut msg = String::from_str("FEN PARSE ERROR: wrong number of pieces (");
            msg.append(usize_to_string(acc.len() + d).as_str());
            msg.append("/8) in row ");
            msg.append(usize_to_string(row_idx).as_str());
            return Err(msg);
        }
        let ghost acc0 = acc@;
        let mut j: usize = 0;
        while j < d
            invariant
                0 <= j <= d,
                acc@ == acc0 + Seq::new(j as nat, |i: int| None::<Piece>),
            decreases d - j,
        {
            acc.push(None);
            proof {
                assert(acc@ =~= acc0 + Seq::new((j + 1) as nat, |i: int| None::<Piece>));
            }
            j = j + 1;
        }
        parse_row_rec(rc, k + 1, row_idx, ca, acc)
    } else {
        match Piece::from_char(c) {
            Err(e) => Err(e),
            Ok(sq) => {
                if acc.len() >= 8 {
                    let mut msg = String::from_str("FEN PARSE ERROR: wrong number of pieces (");
                    msg.append(usize_to_string(acc.len() + 1).as_str());
                    msg.append("/8) in row ");
                    msg.append(usize_to_string(row_idx).as_str());
                    return Err(msg);
                }
                match sq {
                    None => {
                        acc.push(None);
                        parse_row_rec(rc, k + 1, row_idx, ca, acc)
                    },
                    Some(p) => {
                        let g = guess_piece_exec(p, row_idx, acc.len(), ca);
                        acc.push(Some(g));
                        parse_row_rec(rc, k + 1, row_idx, ca, acc)
                    },
                }
            },
        }
    }
}

/// Decode the piece-placement field against the castling availability:
/// eight rank descriptions, rank 8 first, each of exactly eight files.
pub fn parse_board(field: &Vec<char>, ca: &CastlingAvailability) -> (r: Result<Board, String>)
    requires
        ca.wf(),
    ensures
        match r {
            Ok(b) => {
                &&& b.wf()
                &&& parse_board_spec(field@, ca.flags_seq()) == Ok::<Seq<Square>, FenErr>(b@)
            },
            Err(msg) => parse_board_spec(field@, ca.flags_seq()) matches Err(k) && msg@
                == fen_err_text(k),
        },
{
    let rows = split_vec_from(field, '/', 0);
    let ghost rows_spec = split_on(field@, '/');
    proof {
        assert(views_of(rows@).len() == rows@.len());
    }
    if rows.len() != 8 {
        let mut msg = String::from_str("FEN PARSE ERROR: wrong number of rows (");
        msg.append(usize_to_string(rows.len()).as_str());
        msg.append("/8)");
        return Err(msg);
    }
    let mut squares: Vec<Square> = Vec::new();
    let mut i: usize = 0;
    while i < 8
        invariant
            ca.wf(),
            rows@.len() == 8,
            views_of(rows@) == rows_spec,
            rows_spec == split_on(field@, '/'),
            rows_spec.len() == 8,
            0 <= i <= 8,
            squares@.len() == 8 * i,
            parse_rows_from(rows_spec, 0, ca.flags_seq(), Seq::empty()) == parse_rows_from(
                rows_spec,
                i as int,
                ca.flags_seq(),
                squares@,
            ),
        decreases 8 - i,
    {
        let mut row: Vec<Square> = Vec::new();
        proof {
            assert(views_of(rows@)[i as int] == rows_spec[i as int]);
            assert(rows@[i as int]@ == rows_spec[i as int]);
            assert(row@ =~= Seq::<Square>::empty());
        }
        match parse_row_rec(&rows[i], 0, i, ca, &mut row) {
            Ok(()) => {},
            Err(e) => {
                proof {
                    assert(parse_rows_from(rows_spec, i as int, ca.flags_seq(), squares@) is Err);
                }
                return Err(e);
            },
        }
        squares.append(&mut row);
        i = i + 1;
    }
    proof {
        assert(parse_rows_from(rows_spec, 8, ca.flags_seq(), squares@) == Ok::<Seq<Square>, FenErr>(
            squares@,
        ));
    }
    let board = Board::from_squares(squares);
    Ok(board)
}

/// Decode the en-passant field: `-`, or an algebraic coordinate.
pub fn parse_en_passant_availability(field: &Vec<char>) -> (r: Result<Option<Coordinate>, String>)
    ensures
        match r {
            Ok(ep) => parse_ep_spec(field@) == Ok::<Option<Coordinate>, FenErr>(ep),
            Err(msg) => parse_ep_spec(field@) matches Err(k) && msg@ == fen_err_text(k),
        },
{
    if field.len() == 1 && field[0] == '-' {
        return Ok(None);
    }
    if field.len() != 2 {
        return Err(String::from_str("Coordinates must have exactly two characters"));
    }
    let r = parse_coordinate_chars(field[0], field[1]);
    proof {
        assert(field@ =~= seq![field@[0], field@[1]]);
    }
    match r {
        Ok(c) => Ok(Some(c)),
        Err(e) => Err(e),
    }
}

/// Every pawn a decoded row holds is marked moved exactly when it stands
/// off its home pawn rank.
proof fn lemma_parse_row_pawns(
    rc: Seq<char>,
    k: int,
    row_idx: int,
    flags: Seq<bool>,
    acc: Seq<Square>,
    row: Seq<Square>,
)
    requires
        0 <= k <= rc.len(),
        parse_row_from(rc, k, row_idx, flags, acc) == Ok::<Seq<Square>, FenErr>(row),
        forall|j: int|
            0 <= j < acc.len() ==> match #[trigger] acc[j] {
                Some(p) => p.piece_type == PieceType::Pawn ==> p.has_moved == (pawn_home_row(
                    p.colour,
                ) != row_idx),
                None => true,
            },
    ensures
        forall|j: int|
            0 <= j < row.len() ==> match #[trigger] row[j] {
                Some(p) => p.piece_type == PieceType::Pawn ==> p.has_moved == (pawn_home_row(
                    p.colour,
                ) != row_idx),
                None => true,
            },
    decreases rc.len() - k,
{
    if k >= rc.len() {
    } else {
        let c = rc[k];
        if '1' <= c && c <= '8' {
            let d = c as int - '0' as int;
            if acc.len() + d <= 8 {
                let acc2 = acc + Seq::new(d as nat, |i: int| None::<Piece>);
                assert forall|j: int| 0 <= j < acc2.len() implies match #[trigger] acc2[j] {
                    Some(p) => p.piece_type == PieceType::Pawn ==> p.has_moved == (pawn_home_row(
                        p.colour,
                    ) != row_idx),
                    None => true,
                } by {
                    if j < acc.len() {
                        assert(acc2[j] == acc[j]);
                    } else {
                        assert(acc2[j] is None);
                    }
                }
                lemma_parse_row_pawns(rc, k + 1, row_idx, flags, acc2, row);
            }
        } else {
            match Piece::spec_from_char(c) {
                Err(_) => {},
                Ok(sq) => {
                    if acc.len() < 8 {
                        match sq {
                            None => {
                                lemma_parse_row_pawns(rc, k + 1, row_idx, flags, acc.push(None), row);
                            },
                            Some(p) => {
                                let g = guess_piece(p, row_idx, acc.len() as int, flags);
                                lemma_parse_row_pawns(
                                    rc,
                                    k + 1,
                                    row_idx,
                                    flags,
                                    acc.push(Some(g)),
                                    row,
                                );
                            },
                        }
                    }
                },
            }
        }
    }
}

/// A decoded board keeps every off-home pawn marked moved.
proof fn lemma_parse_rows_pawns(
    rows: Seq<Seq<char>>,
    i: int,
    flags: Seq<bool>,
    acc: Seq<Square>,
    board: Seq<Square>,
)
    requires
        rows.len() == 8,
        0 <= i <= 8,
        acc.len() == 8 * i,
        parse_rows_from(rows, i, flags, acc) == Ok::<Seq<Square>, FenErr>(board),
        forall|j: int|
            0 <= j < acc.len() ==> match #[trigger] acc[j] {
                Some(p) => p.piece_type == PieceType::Pawn ==> p.has_moved == (pawn_home_row(
                    p.colour,
                ) != j / 8),
                None => true,
            },
    ensures
        board.len() == 64,
        forall|j: int|
            0 <= j < 64 ==> match #[trigger] board[j] {
                Some(p) => p.piece_type == PieceType::Pawn ==> p.has_moved == (pawn_home_row(
                    p.colour,
                ) != j / 8),
                None => true,
            },
    decreases 8 - i,
{
    if i >= 8 {
        assert(board == acc);
    } else {
        match parse_row_from(rows[i], 0, i, flags, Seq::empty()) {
            Err(_) => {},
            Ok(row) => {
                lemma_parse_row_len(rows[i], 0, i, flags, Seq::empty(), row);
                lemma_parse_row_pawns(rows[i], 0, i, flags, Seq::empty(), row);
                let acc2 = acc + row;
                assert forall|j: int| 0 <= j < acc2.len() implies match #[trigger] acc2[j] {
                    Some(p) => p.piece_type == PieceType::Pawn ==> p.has_moved == (pawn_home_row(
                        p.colour,
                    ) != j / 8),
                    None => true,
                } by {
                    if j < acc.len() {
                        assert(acc2[j] == acc[j]);
                    } else {
                        assert(acc2[j] == row[j - acc.len()]);
                        assert(j / 8 == i) by (nonlinear_arith)
                            requires
                                acc.len() == 8 * i,
                                acc.len() <= j < acc.len() + 8,
                                row.len() == 8,
                        ;
                    }
                }
                lemma_parse_rows_pawns(rows, i + 1, flags, acc2, board);
            },
        }
    }
}

/// A successfully decoded rank holds exactly eight squares.
proof fn lemma_parse_row_len(
    rc: Seq<char>,
    k: int,
    row_idx: int,
    flags: Seq<bool>,
    acc: Seq<Square>,
    row: Seq<Square>,
)
    requires
        0 <= k <= rc.len(),
        parse_row_from(rc, k, row_idx, flags, acc) == Ok::<Seq<Square>, FenErr>(row),
    ensures
        row.len() == 8,
    decreases rc.len() - k,
{
    if k >= rc.len() {
    } else {
        let c = rc[k];
        if '1' <= c && c <= '8' {
            let d = c as int - '0' as int;
            if acc.len() + d <= 8 {
                lemma_parse_row_len(
                    rc,
                    k + 1,
                    row_idx,
                    flags,
                    acc + Seq::new(d as nat, |i: int| None::<Piece>),
                    row,
                );
            }
        } else {
            match Piece::spec_from_char(c) {
                Err(_) => {},
                Ok(sq) => {
                    if acc.len() < 8 {
                        match sq {
                            None => {
                                lemma_parse_row_len(rc, k + 1, row_idx, flags, acc.push(None), row);
                            },
                            Some(p) => {
                                lemma_parse_row_len(
                                    rc,
                                    k + 1,
                                    row_idx,
                                    flags,
                                    acc.push(
                                        Some(guess_piece(p, row_idx, acc.len() as int, flags)),
                                    ),
                                    row,
                                );
                            },
                        }
                    }
                },
            }
        }
    }
}

impl BoardState {
    /// Decode a whole FEN record into a board state: six space-separated
    /// fields, with `has_moved` reconstructed from the castling
    /// availability and the pawn ranks; the halfmove clock and fullmove
    /// number are accepted unread.
    pub fn from_str(fen_string: &str) -> (r: Result<BoardState, String>)
        ensures
            match r {
                Ok(st) => {
                    &&& fen_decode(fen_string@) matches Ok(f)
                    &&& st.wf()
                    &&& st.current_player == f.player
                    &&& st.board@ == f.board
                    &&& st.en_passant_availability == f.ep
                    &&& st.moves.history() == Seq::<crate::moves::MoveRecord>::empty()
                    &&& st.moves.start_ep() == f.ep
                },
                Err(msg) => fen_decode(fen_string@) matches Err(k) && msg@ == fen_err_text(k),
            },
    {
        let n = fen_string.unicode_len();
        let mut chars: Vec<char> = Vec::new();
        let mut i: usize = 0;
        while i < n
            invariant
                n == fen_string@.len(),
                0 <= i <= n,
                chars@ == fen_string@.take(i as int),
            decreases n - i,
        {
            chars.push(fen_string.get_char(i));
            proof {
                assert(chars@ =~= fen_string@.take(i + 1));
            }
            i = i + 1;
        }
        proof {
            assert(chars@ =~= fen_string@);
        }
        let fields = split_vec_from(&chars, ' ', 0);
        let ghost fields_spec = split_on(fen_string@, ' ');
        proof {
            assert(views_of(fields@).len() == fields@.len());
        }
        if fields.len() != 6 {
            let mut msg = String::from_str("FEN PARSE ERROR: wrong number of fields in record (");
            msg.append(usize_to_string(fields.len()).as_str());
            msg.append("/6)");
            return Err(msg);
        }
        proof {
            assert(views_of(fields@)[1] == fields_spec[1]);
            assert(views_of(fields@)[2] == fields_spec[2]);
            assert(views_of(fields@)[3] == fields_spec[3]);
            assert(views_of(fields@)[0] == fields_spec[0]);
            assert(fields@[1]@ == fields_spec[1]);
            assert(fields@[2]@ == fields_spec[2]);
            assert(fields@[3]@ == fields_spec[3]);
            assert(fields@[0]@ == fields_spec[0]);
        }
        let active = &fields[1];
        let current_player = if active.len() == 1 && (active[0] == 'b' || active[0] == 'B') {
            proof {
                assert(fields_spec[1] =~= seq![active@[0]]);
            }
            Colour::Black
        } else if active.len() == 1 && (active[0] == 'w' || active[0] == 'W') {
            proof {
                assert(fields_spec[1] =~= seq![active@[0]]);
            }
            Colour::White
        } else {
            proof {
                assert(fields_spec[1] != seq!['b'] && fields_spec[1] != seq!['B'] && fields_spec[1]
                    != seq!['w'] && fields_spec[1] != seq!['W']) by {
                    if fields_spec[1] == seq!['b'] || fields_spec[1] == seq!['B'] || fields_spec[1]
                        == seq!['w'] || fields_spec[1] == seq!['W'] {
                        assert(fields_spec[1].len() == 1);
                    }
                }
            }
            let mut msg = String::from_str(
                "FEN PARSE ERROR: next player must be 'b' or 'w' (not ",
            );
            let mut q: usize = 0;
            while q < active.len()
                invariant
                    0 <= q <= active@.len(),
                    msg@ == "FEN PARSE ERROR: next player must be 'b' or 'w' (not "@
                        + active@.take(q as int),
                decreases active@.len() - q,
            {
                crate::piece::push_char(&mut msg, active[q]);
                proof {
                    assert(msg@ =~= "FEN PARSE ERROR: next player must be 'b' or 'w' (not "@
                        + active@.take(q + 1));
                }
                q = q + 1;
            }
            proof {
                assert(active@.take(active@.len() as int) =~= active@);
            }
            msg.append(")");
            return Err(msg);
        };
        let castling_availability = match parse_castling_availability(&fields[2]) {
            Ok(ca) => ca,
            Err(e) => {
                return Err(e);
            },
        };
        let en_passant_availability = match parse_en_passant_availability(&fields[3]) {
            Ok(ep) => ep,
            Err(e) => {
                return Err(e);
            },
        };
        let board = match parse_board(&fields[0], &castling_availability) {
            Ok(b) => b,
            Err(e) => {
                return Err(e);
            },
        };
        let moves = MoveRecords::new(en_passant_availability);
        let st = BoardState { current_player, board, moves, en_passant_availability };
        proof {
            let flags = castling_availability.flags_seq();
            let rows = split_on(fields_spec[0], '/');
            assert(parse_rows_from(rows, 0, flags, Seq::empty()) == Ok::<Seq<Square>, FenErr>(
                st.board@,
            ));
            lemma_parse_rows_pawns(rows, 0, flags, Seq::empty(), st.board@);
            assert(crate::rules::pawns_off_home_moved(st.board@));
        }
        Ok(st)
    }
}

} // verus!
