//! The six-field notation of a position: piece placement, side to move,
//! castling rights, en passant target, halfmove clock and fullmove number,
//! separated by white space.

use vstd::prelude::*;
use crate::chess_color::{ChessColor, ColorSet};
use crate::chess_coordinate::{idx_to_notation, notation_of_square, square_of_notation};
use vstd::string::*;
use crate::text::push_char;
use crate::chess_piece::{
    letter_of, occupants, piece_of_letter, ChessPiece, Occupant, PieceKind,
};
use crate::geometry::least;
use crate::position::Position;

verus! {

/// Whether a character is white space: the characters that Unicode gives
/// the property `White_Space`.
pub open spec fn is_white_space(c: char) -> bool {
    let n = c as u32;
    ||| 0x09 <= n <= 0x0d
    ||| n == 0x20
    ||| n == 0x85
    ||| n == 0xa0
    ||| n == 0x1680
    ||| 0x2000 <= n <= 0x200a
    ||| n == 0x2028
    ||| n == 0x2029
    ||| n == 0x202f
    ||| n == 0x205f
    ||| n == 0x3000
}

/// The fields of a text: its longest runs of characters that are not white
/// space, in order.
pub open spec fn fields_of(s: Seq<char>) -> Seq<Seq<char>>
    decreases s.len(),
{
    if s.len() == 0 {
        Seq::empty()
    } else {
        let before = fields_of(s.drop_last());
        if is_white_space(s.last()) {
            before
        } else if s.len() >= 2 && !is_white_space(s[s.len() - 2]) {
            before.drop_last().push(before.last().push(s.last()))
        } else {
            before.push(seq![s.last()])
        }
    }
}

/// Where the placement field has got to: the squares filled so far, and
/// the column and row of the next square.
pub struct Placement {
    pub layout: Seq<Occupant>,
    pub x: int,
    pub y: int,
}

/// What one character of the placement field does: a digit skips that many
/// squares, a slash starts the next row, and a piece letter fills the
/// square at the cursor, which must lie on the board, and moves on by one.
/// Any other character is refused.
pub open spec fn place_char(at: Placement, c: char) -> Option<Placement> {
    if '0' <= c <= '9' {
        Some(Placement { x: at.x + (c as int - '0' as int), ..at })
    } else if c == '/' {
        Some(Placement { x: 0, y: at.y + 1, ..at })
    } else if piece_of_letter(c) is Some && at.x + at.y * 8 < 64 {
        Some(
            Placement {
                layout: at.layout.update(at.x + at.y * 8, piece_of_letter(c)),
                x: at.x + 1,
                y: at.y,
            },
        )
    } else {
        None
    }
}

/// The empty board with the cursor on its first square.
pub open spec fn empty_placement() -> Placement {
    Placement { layout: Seq::new(64, |sq: int| None), x: 0, y: 0 }
}

/// What a run of placement characters does, read from `at` on.
pub open spec fn place_from(at: Placement, s: Seq<char>) -> Option<Placement>
    decreases s.len(),
{
    if s.len() == 0 {
        Some(at)
    } else {
        match place_from(at, s.drop_last()) {
            Some(before) => place_char(before, s.last()),
            None => None,
        }
    }
}

/// What the placement field does, read from an empty board with the cursor
/// on the first square.
pub open spec fn place_all(s: Seq<char>) -> Option<Placement> {
    place_from(empty_placement(), s)
}

/// The side that the second field names.
pub open spec fn side_of(s: Seq<char>) -> Option<ChessColor> {
    if s == seq!['w'] {
        Some(ChessColor::White)
    } else if s == seq!['b'] {
        Some(ChessColor::Black)
    } else {
        None
    }
}

/// The sides whose piece of the given kind is named in the castling field.
pub open spec fn sides_named(s: Seq<char>, kind: PieceKind) -> Set<ChessColor> {
    Set::new(|color: ChessColor| s.contains(letter_of(color, kind)))
}

/// Whether every character is a decimal digit.
pub open spec fn all_digits(s: Seq<char>) -> bool {
    forall|i: int| 0 <= i < s.len() ==> '0' <= #[trigger] s[i] <= '9'
}

/// The number that a run of decimal digits stands for.
pub open spec fn decimal_value(s: Seq<char>) -> int
    decreases s.len(),
{
    if s.len() == 0 {
        0
    } else {
        decimal_value(s.drop_last()) * 10 + (s.last() as int - '0' as int)
    }
}

/// The counter that a field stands for: one or more decimal digits, which
/// a plus sign may precede, with a value that fits in 32 bits.
pub open spec fn counter_of(s: Seq<char>) -> Option<int> {
    let digits = if s.len() > 0 && s[0] == '+' {
        s.drop_first()
    } else {
        s
    };
    if digits.len() > 0 && all_digits(digits) && decimal_value(digits) <= u32::MAX {
        Some(decimal_value(digits))
    } else {
        None
    }
}

/// The position that a text stands for. The text must have exactly six
/// fields; the placement, the side to move and the two counters must be
/// well-formed. In the castling field `K` and `k` give the right to castle
/// short and `Q` and `q` the right to castle long, and every other
/// character is passed over; an en passant field that names no square
/// stands for no target.
pub open spec fn parse_fen(s: Seq<char>) -> Option<Position> {
    let fields = fields_of(s);
    if fields.len() == 6 && place_all(fields[0]) is Some && side_of(fields[1]) is Some
        && counter_of(fields[4]) is Some && counter_of(fields[5]) is Some {
        Some(
            Position {
                layout: place_all(fields[0]).unwrap().layout,
                side_to_move: side_of(fields[1]).unwrap(),
                castle_short: sides_named(fields[2], PieceKind::King),
                castle_long: sides_named(fields[2], PieceKind::Queen),
                en_passant: square_of_notation(fields[3]),
                halfmove_clock: counter_of(fields[4]).unwrap(),
                fullmove_number: counter_of(fields[5]).unwrap(),
            },
        )
    } else {
        None
    }
}

/// The character of a decimal digit.
pub open spec fn digit_char(d: int) -> char {
    ('0' as int + d) as char
}

/// A number that is not negative, written in decimal without leading zeros.
pub open spec fn decimal_text(n: int) -> Seq<char>
    decreases n,
{
    if n < 10 {
        seq![digit_char(n)]
    } else {
        decimal_text(n / 10).push(digit_char(n % 10))
    }
}

/// How many empty squares end the first `n` squares of row `y`.
pub open spec fn gap_before(layout: Seq<Occupant>, y: int, n: int) -> int
    decreases n,
{
    if n <= 0 || layout[y * 8 + n - 1] is Some {
        0
    } else {
        gap_before(layout, y, n - 1) + 1
    }
}

/// A run of empty squares as text: its length, or nothing for no square.
pub open spec fn gap_text(gap: int) -> Seq<char> {
    if gap > 0 {
        seq![digit_char(gap)]
    } else {
        Seq::empty()
    }
}

/// The first `n` squares of row `y` as text, up to the last piece among
/// them: a letter for each piece, a digit for each run of empty squares.
pub open spec fn row_text_upto(layout: Seq<Occupant>, y: int, n: int) -> Seq<char>
    decreases n,
{
    if n <= 0 {
        Seq::empty()
    } else {
        match layout[y * 8 + n - 1] {
            Some((color, kind)) => row_text_upto(layout, y, n - 1) + gap_text(
                gap_before(layout, y, n - 1),
            ) + seq![letter_of(color, kind)],
            None => row_text_upto(layout, y, n - 1),
        }
    }
}

/// Row `y` as text.
pub open spec fn row_text(layout: Seq<Occupant>, y: int) -> Seq<char> {
    row_text_upto(layout, y, 8) + gap_text(gap_before(layout, y, 8))
}

/// The first `rows` rows as text, with a slash between one row and the
/// next.
pub open spec fn placement_text_upto(layout: Seq<Occupant>, rows: int) -> Seq<char>
    decreases rows,
{
    if rows <= 0 {
        Seq::empty()
    } else if rows == 1 {
        row_text(layout, 0)
    } else {
        placement_text_upto(layout, rows - 1) + seq!['/'] + row_text(layout, rows - 1)
    }
}

/// The letter of the side to move.
pub open spec fn side_text(color: ChessColor) -> Seq<char> {
    match color {
        ChessColor::White => seq!['w'],
        ChessColor::Black => seq!['b'],
    }
}

/// The letter `letter` if `held`, else nothing.
pub open spec fn right_text(held: bool, letter: char) -> Seq<char> {
    if held {
        seq![letter]
    } else {
        Seq::empty()
    }
}

/// The castling rights as text: of `KQkq` the letters of the rights that
/// are held, or a dash when none is.
pub open spec fn castling_text(short: Set<ChessColor>, long: Set<ChessColor>) -> Seq<char> {
    let held = right_text(short.contains(ChessColor::White), 'K') + right_text(
        long.contains(ChessColor::White),
        'Q',
    ) + right_text(short.contains(ChessColor::Black), 'k') + right_text(
        long.contains(ChessColor::Black),
        'q',
    );
    if held.len() == 0 {
        seq!['-']
    } else {
        held
    }
}

/// The en passant target as text: the name of the square, or a dash.
pub open spec fn en_passant_text(target: Option<int>) -> Seq<char> {
    match target {
        Some(sq) => notation_of_square(sq),
        None => seq!['-'],
    }
}

/// A position in the six-field notation, with one blank between fields.
pub open spec fn fen_text(p: Position) -> Seq<char> {
    placement_text_upto(p.layout, 8) + seq![' '] + side_text(p.side_to_move) + seq![' ']
        + castling_text(p.castle_short, p.castle_long) + seq![' '] + en_passant_text(p.en_passant)
        + seq![' '] + decimal_text(p.halfmove_clock) + seq![' '] + decimal_text(p.fullmove_number)
}

/// The texts that a list of character vectors holds.
pub open spec fn texts(fields: Seq<Vec<char>>) -> Seq<Seq<char>> {
    fields.map_values(|field: Vec<char>| field@)
}

/// Whether a character is white space.
pub(crate) fn char_is_white_space(c: char) -> (b: bool)
    ensures
        b == is_white_space(c),
{
    let n: u32 = c as u32;
    (0x09 <= n && n <= 0x0d) || n == 0x20 || n == 0x85 || n == 0xa0 || n == 0x1680 || (0x2000 <= n
        && n <= 0x200a) || n == 0x2028 || n == 0x2029 || n == 0x202f || n == 0x205f || n == 0x3000
}

/// Splits a text into its fields.
pub(crate) fn split_fields(chars: &Vec<char>) -> (fields: Vec<Vec<char>>)
    ensures
        texts(fields@) == fields_of(chars@),
{
    let mut fields: Vec<Vec<char>> = Vec::new();
    let mut current: Vec<char> = Vec::new();
    let mut i: usize = 0;
    while i < chars.len()
        invariant
            i <= chars.len(),
            current@.len() > 0 <==> i > 0 && !is_white_space(chars@[i - 1]),
            fields_of(chars@.take(i as int)) == if current@.len() > 0 {
                texts(fields@).push(current@)
            } else {
                texts(fields@)
            },
        decreases chars.len() - i,
    {
        let c = chars[i];
        assert(chars@.take(i + 1).drop_last() =~= chars@.take(i as int));
        if char_is_white_space(c) {
            if current.len() > 0 {
                fields.push(current);
                current = Vec::new();
            }
        } else {
            current.push(c);
            assert(current@.len() == 1 ==> current@ =~= seq![c]);
        }
        i += 1;
    }
    assert(chars@.take(i as int) =~= chars@);
    if current.len() > 0 {
        fields.push(current);
    }
    fields
}

/// Reads the placement field. Gives the squares it fills, or nothing when
/// it holds a character that is neither digit, slash nor piece letter, or
/// sets a piece past the last square.
pub(crate) fn read_placement(field: &Vec<char>) -> (layout: Option<[ChessPiece; 64]>)
    ensures
        layout is Some <==> place_all(field@) is Some,
        layout matches Some(squares) ==> occupants(squares) == place_all(field@).unwrap().layout,
{
    let mut layout: [ChessPiece; 64] = [ChessPiece::empty(); 64];
    let mut x: usize = 0;
    let mut y: usize = 0;
    let mut i: usize = 0;
    while i < field.len()
        invariant
            i <= field.len(),
            place_all(field@.take(i as int)) matches Some(at) && {
                &&& at.layout == occupants(layout)
                &&& 0 <= at.x
                &&& 0 <= at.y
                &&& x as int == least(at.x, 64)
                &&& y as int == least(at.y, 8)
            },
        decreases field.len() - i,
    {
        let c = field[i];
        assert(field@.take(i + 1).drop_last() =~= field@.take(i as int));
        if '0' <= c && c <= '9' {
            let skip: usize = (c as u32 - '0' as u32) as usize;
            x = if x + skip >= 64 {
                64
            } else {
                x + skip
            };
        } else if c == '/' {
            x = 0;
            y = if y >= 8 {
                8
            } else {
                y + 1
            };
        } else {
            match ChessPiece::from_letter(c) {
                Some(piece) => {
                    if x + y * 8 >= 64 {
                        proof {
                            lemma_place_all_fails(field@, i + 1);
                        }
                        return None;
                    }
                    layout[x + y * 8] = piece;
                    x = x + 1;
                },
                None => {
                    proof {
                        lemma_place_all_fails(field@, i + 1);
                    }
                    return None;
                },
            }
        }
        i += 1;
    }
    assert(field@.take(i as int) =~= field@);
    Some(layout)
}

/// Once a part of the placement field is refused, the whole field is.
pub proof fn lemma_place_all_fails(s: Seq<char>, n: int)
    requires
        0 <= n <= s.len(),
        place_all(s.take(n)) is None,
    ensures
        place_all(s) is None,
    decreases s.len() - n,
{
    if n < s.len() {
        assert(s.take(n + 1).drop_last() =~= s.take(n));
        lemma_place_all_fails(s, n + 1);
    } else {
        assert(s.take(n) =~= s);
    }
}

/// Reads the field that names the side to move.
pub(crate) fn read_side(field: &Vec<char>) -> (side: Option<ChessColor>)
    ensures
        side == side_of(field@),
{
    if field.len() != 1 {
        return None;
    }
    let c = field[0];
    if c == 'w' {
        assert(field@ =~= seq!['w']);
        Some(ChessColor::White)
    } else if c == 'b' {
        assert(field@ =~= seq!['b']);
        Some(ChessColor::Black)
    } else {
        None
    }
}

/// Reads the castling field: the sides that may castle short, then those
/// that may castle long.
pub(crate) fn read_castling(field: &Vec<char>) -> (rights: (ColorSet, ColorSet))
    ensures
        rights.0@ == sides_named(field@, PieceKind::King),
        rights.1@ == sides_named(field@, PieceKind::Queen),
{
    let mut can_castle_short = ColorSet::none();
    let mut can_castle_long = ColorSet::none();
    for i in 0..field.len()
        invariant
            can_castle_short@ == sides_named(field@.take(i as int), PieceKind::King),
            can_castle_long@ == sides_named(field@.take(i as int), PieceKind::Queen),
    {
        let c = field[i];
        proof {
            let read = field@.take(i as int);
            let more = field@.take(i + 1);
            assert forall|letter: char| more.contains(letter) <==> read.contains(letter) || letter
                == c by {
                if read.contains(letter) {
                    let k = choose|k: int| 0 <= k < read.len() && read[k] == letter;
                }
                if letter == c {
                    assert(more[i as int] == c);
                }
            }
        }
        if let Some(piece) = ChessPiece::from_letter(c) {
            match (piece.kind(), piece.color()) {
                (Some(PieceKind::King), Some(color)) => {
                    can_castle_short.insert(color);
                },
                (Some(PieceKind::Queen), Some(color)) => {
                    can_castle_long.insert(color);
                },
                _ => (),
            }
        }
    }
    assert(field@.take(field.len() as int) =~= field@);
    (can_castle_short, can_castle_long)
}

/// More digits never make a number smaller.
pub proof fn lemma_decimal_value_grows(s: Seq<char>, n: int)
    requires
        0 <= n <= s.len(),
        all_digits(s),
    ensures
        0 <= decimal_value(s.take(n)) <= decimal_value(s),
    decreases s.len() - n,
{
    lemma_decimal_value_nonnegative(s.take(n));
    if n < s.len() {
        assert(s.take(n + 1).drop_last() =~= s.take(n));
        lemma_decimal_value_grows(s, n + 1);
    } else {
        assert(s.take(n) =~= s);
    }
}

/// A run of digits stands for a number that is not negative.
pub proof fn lemma_decimal_value_nonnegative(s: Seq<char>)
    requires
        all_digits(s),
    ensures
        0 <= decimal_value(s),
    decreases s.len(),
{
    if s.len() > 0 {
        lemma_decimal_value_nonnegative(s.drop_last());
    }
}

/// Reads a counter field.
pub(crate) fn read_counter(field: &Vec<char>) -> (counter: Option<u32>)
    ensures
        counter is Some <==> counter_of(field@) is Some,
        counter matches Some(n) ==> n as int == counter_of(field@).unwrap(),
{
    let start: usize = if field.len() > 0 && field[0] == '+' {
        1
    } else {
        0
    };
    let ghost digits = if start == 1 {
        field@.drop_first()
    } else {
        field@
    };
    if field.len() == start {
        return None;
    }
    let mut value: u64 = 0;
    let mut i: usize = start;
    while i < field.len()
        invariant
            start <= i <= field.len(),
            start <= 1,
            digits.len() == field.len() - start,
            forall|k: int| 0 <= k < digits.len() ==> digits[k] == field@[k + start],
            counter_of(field@) == if digits.len() > 0 && all_digits(digits) && decimal_value(digits)
                <= u32::MAX {
                Some(decimal_value(digits))
            } else {
                None
            },
            all_digits(digits.take(i - start)),
            value as int == decimal_value(digits.take(i - start)),
            value <= u32::MAX,
        decreases field.len() - i,
    {
        let c = field[i];
        let ghost read = digits.take(i - start);
        let ghost more = digits.take(i - start + 1);
        proof {
            assert(more.drop_last() =~= read);
            assert(more.last() == c);
        }
        if !('0' <= c && c <= '9') {
            return None;
        }
        value = value * 10 + (c as u32 - '0' as u32) as u64;
        if value > 0xffff_ffff {
            proof {
                if all_digits(digits) {
                    lemma_decimal_value_grows(digits, i - start + 1);
                }
            }
            return None;
        }
        i += 1;
    }
    assert(digits.take(i - start) =~= digits);
    Some(value as u32)
}

/// Appends a number in decimal.
pub(crate) fn push_decimal(text: &mut String, n: u32)
    ensures
        final(text)@ == old(text)@ + decimal_text(n as int),
    decreases n,
{
    if n >= 10 {
        push_decimal(text, n / 10);
    }
    push_char(text, (48u8 + (n % 10) as u8) as char);
}

/// Appends the text of a run of empty squares.
pub(crate) fn push_gap(text: &mut String, gap: u8)
    requires
        gap <= 8,
    ensures
        final(text)@ == old(text)@ + gap_text(gap as int),
{
    if gap > 0 {
        push_char(text, (48u8 + gap) as char);
    }
}

/// Appends the text of row `y` of an array of squares.
pub(crate) fn push_row(text: &mut String, layout: &[ChessPiece; 64], y: usize)
    requires
        y < 8,
    ensures
        final(text)@ == old(text)@ + row_text(occupants(*layout), y as int),
{
    let ghost squares = occupants(*layout);
    let ghost base = text@;
    let mut gap: u8 = 0;
    for x in 0..8usize
        invariant
            y < 8,
            squares == occupants(*layout),
            text@ == base + row_text_upto(squares, y as int, x as int),
            gap as int == gap_before(squares, y as int, x as int),
            gap <= x,
    {
        let piece = layout[y * 8 + x];
        match (piece.color(), piece.kind()) {
            (Some(color), Some(kind)) => {
                push_gap(text, gap);
                gap = 0;
                let letter = piece.to_notation();
                text.append(letter.as_str());
            },
            _ => {
                gap = gap + 1;
            },
        }
    }
    push_gap(text, gap);
}

/// Appends the text of a set of castling rights.
pub(crate) fn push_castling(text: &mut String, short: ColorSet, long: ColorSet)
    ensures
        final(text)@ == old(text)@ + castling_text(short@, long@),
{
    if short.contains(ChessColor::White) {
        push_char(text, 'K');
    }
    if long.contains(ChessColor::White) {
        push_char(text, 'Q');
    }
    if short.contains(ChessColor::Black) {
        push_char(text, 'k');
    }
    if long.contains(ChessColor::Black) {
        push_char(text, 'q');
    }
    if !short.contains(ChessColor::White) && !long.contains(ChessColor::White) && !short.contains(
        ChessColor::Black,
    ) && !long.contains(ChessColor::Black) {
        push_char(text, '-');
    }
}

/// Appends a blank.
pub(crate) fn push_blank(text: &mut String)
    ensures
        final(text)@ == old(text)@ + seq![' '],
{
    push_char(text, ' ');
}

/// Appends the letter of the side to move.
pub(crate) fn push_side(text: &mut String, color: ChessColor)
    ensures
        final(text)@ == old(text)@ + side_text(color),
{
    match color {
        ChessColor::White => push_char(text, 'w'),
        ChessColor::Black => push_char(text, 'b'),
    }
}

/// Appends the text of an en passant target.
pub(crate) fn push_en_passant(text: &mut String, target: Option<u16>)
    ensures
        final(text)@ == old(text)@ + en_passant_text(
            match target {
                Some(sq) => Some(sq as int),
                None => None,
            },
        ),
{
    match target {
        Some(sq) => {
            let name = idx_to_notation(sq);
            text.append(name.as_str());
        },
        None => {
            push_char(text, '-');
        },
    }
}

} // verus!
