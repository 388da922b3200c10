//! Conversion between algebraic square names such as `e4` and board indices.
//!
//! Index 0 is a8, the top-left corner seen from White's side; indices grow
//! along a rank first, so h8 is 7 and a1 is 56.

use vstd::prelude::*;
use vstd::string::*;
use crate::text::push_char;
use crate::InvalidNotationError;

verus! {

/// The index of the square that a two-letter name stands for: a file letter
/// `a`..`h` followed by a rank digit `1`..`8`. Any other text names no square.
pub open spec fn square_of_notation(s: Seq<char>) -> Option<int> {
    if s.len() == 2 && 'a' <= s[0] <= 'h' && '1' <= s[1] <= '8' {
        Some((('8' as int) - (s[1] as int)) * 8 + ((s[0] as int) - ('a' as int)))
    } else {
        None
    }
}

/// The file letter of column `x`, for `0 <= x < 8`.
pub open spec fn file_letter(x: int) -> char {
    (('a' as int) + x) as char
}

/// The rank digit of row `y`: `8` for row 0 down to `1` for row 7, and a
/// blank for a row that is not on the board.
pub open spec fn rank_digit(y: int) -> char {
    if 0 <= y < 8 {
        (('8' as int) - y) as char
    } else {
        ' '
    }
}

/// The two-letter name of a square index.
pub open spec fn notation_of_square(idx: int) -> Seq<char> {
    seq![file_letter(idx % 8), rank_digit(idx / 8)]
}

/// The square named by a file letter and a rank digit.
pub(crate) fn square_of_letters(file: char, rank: char) -> (idx: Option<u16>)
    ensures
        idx is Some <==> square_of_notation(seq![file, rank]) is Some,
        idx matches Some(i) ==> i as int == square_of_notation(seq![file, rank]).unwrap() && i < 64,
{
    if 'a' <= file && file <= 'h' && '1' <= rank && rank <= '8' {
        let x: u16 = (file as u32 - 'a' as u32) as u16;
        let y: u16 = ('8' as u32 - rank as u32) as u16;
        Some(y * 8 + x)
    } else {
        None
    }
}

/// Reads a square name. Succeeds exactly on the 64 names `a1`..`h8`.
pub fn notation_to_idx(notation: &str) -> (res: Result<u16, InvalidNotationError>)
    ensures
        res is Ok <==> square_of_notation(notation@) is Some,
        res matches Ok(idx) ==> idx as int == square_of_notation(notation@).unwrap() && idx < 64,
{
    if notation.unicode_len() != 2 {
        return Err(InvalidNotationError);
    }
    let file: char = notation.get_char(0);
    let rank: char = notation.get_char(1);
    match square_of_letters(file, rank) {
        Some(idx) => Ok(idx),
        None => Err(InvalidNotationError),
    }
}

/// Writes the name of a square. For an index past the board the file letter
/// still follows the column and the rank is left blank.
pub fn idx_to_notation(idx: u16) -> (notation: String)
    ensures
        notation@ == notation_of_square(idx as int),
{
    let x: u8 = (idx % 8) as u8;
    let y: u16 = idx / 8;
    let letter: char = (97u8 + x) as char;
    let digit: char = if y < 8 {
        (56u8 - y as u8) as char
    } else {
        ' '
    };
    let mut notation = String::new();
    push_char(&mut notation, letter);
    push_char(&mut notation, digit);
    notation
}

/// Naming a square and reading the name back gives the same square, and
/// writing the square that a valid name stands for gives the same name.
pub proof fn lemma_notation_round_trip(idx: int, s: Seq<char>)
    ensures
        0 <= idx < 64 ==> square_of_notation(notation_of_square(idx)) == Some(idx),
        square_of_notation(s) is Some ==> {
            &&& 0 <= square_of_notation(s).unwrap() < 64
            &&& notation_of_square(square_of_notation(s).unwrap()) == s
        },
{
}

} // verus!
