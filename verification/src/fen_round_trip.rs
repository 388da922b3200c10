//! Writing a position and reading the text back gives the position.

use vstd::prelude::*;
use crate::chess_color::ChessColor;
use crate::chess_piece::{letter_of, Occupant, PieceKind};
use crate::fen::{
    all_digits, castling_text, decimal_text, decimal_value, empty_placement, en_passant_text,
    fen_text, fields_of, gap_before, gap_text, is_white_space, parse_fen, place_all, place_from,
    placement_text_upto, right_text, row_text, row_text_upto, side_of, side_text, sides_named,
    Placement,
};
use crate::position::Position;

verus! {

/// Whether a text could be a field: it is not empty and holds no white
/// space.
pub open spec fn is_field(s: Seq<char>) -> bool {
    &&& s.len() > 0
    &&& forall|i: int| 0 <= i < s.len() ==> !is_white_space(#[trigger] s[i])
}

/// A field written after white space, or at the start, is read as one more
/// field.
pub proof fn lemma_fields_of_with_field(s: Seq<char>, field: Seq<char>)
    requires
        is_field(field),
        s.len() == 0 || is_white_space(s.last()),
    ensures
        fields_of(s + field) == fields_of(s).push(field),
    decreases field.len(),
{
    let c = field.last();
    let shorter = field.drop_last();
    assert((s + field).drop_last() =~= s + shorter);
    if shorter.len() == 0 {
        assert(field =~= seq![c]);
    } else {
        lemma_fields_of_with_field(s, shorter);
        assert(shorter.push(c) =~= field);
    }
}

/// A blank adds no field.
pub proof fn lemma_fields_of_with_blank(s: Seq<char>)
    ensures
        fields_of(s + seq![' ']) == fields_of(s),
        (s + seq![' ']).len() > 0,
        is_white_space((s + seq![' ']).last()),
{
    assert((s + seq![' ']).drop_last() =~= s);
}

/// Six fields with a blank between one and the next are read as those six
/// fields.
pub proof fn lemma_fields_of_six(
    a: Seq<char>,
    b: Seq<char>,
    c: Seq<char>,
    d: Seq<char>,
    e: Seq<char>,
    f: Seq<char>,
)
    requires
        is_field(a),
        is_field(b),
        is_field(c),
        is_field(d),
        is_field(e),
        is_field(f),
    ensures
        fields_of(a + seq![' '] + b + seq![' '] + c + seq![' '] + d + seq![' '] + e + seq![' '] + f)
            == seq![a, b, c, d, e, f],
{
    let blank = seq![' '];
    let none = Seq::<char>::empty();
    lemma_fields_of_with_field(none, a);
    lemma_fields_of_with_blank(a);
    lemma_fields_of_with_field(a + blank, b);
    lemma_fields_of_with_blank(a + blank + b);
    lemma_fields_of_with_field(a + blank + b + blank, c);
    lemma_fields_of_with_blank(a + blank + b + blank + c);
    lemma_fields_of_with_field(a + blank + b + blank + c + blank, d);
    lemma_fields_of_with_blank(a + blank + b + blank + c + blank + d);
    lemma_fields_of_with_field(a + blank + b + blank + c + blank + d + blank, e);
    lemma_fields_of_with_blank(a + blank + b + blank + c + blank + d + blank + e);
    lemma_fields_of_with_field(a + blank + b + blank + c + blank + d + blank + e + blank, f);
}

/// A number written in decimal is a field of digits that stands for the
/// number.
pub proof fn lemma_decimal_round_trip(n: int)
    requires
        0 <= n,
    ensures
        is_field(decimal_text(n)),
        all_digits(decimal_text(n)),
        decimal_value(decimal_text(n)) == n,
        decimal_text(n)[0] != '+',
    decreases n,
{
    if n >= 10 {
        lemma_decimal_round_trip(n / 10);
        assert(decimal_text(n).drop_last() =~= decimal_text(n / 10));
    } else {
        assert(decimal_text(n).drop_last() =~= Seq::<char>::empty());
        assert(decimal_value(Seq::<char>::empty()) == 0);
    }
}

/// A text holds what either of its two parts holds.
proof fn lemma_contains_concat(a: Seq<char>, b: Seq<char>, c: char)
    ensures
        (a + b).contains(c) <==> a.contains(c) || b.contains(c),
{
    if a.contains(c) {
        let i = choose|i: int| 0 <= i < a.len() && a[i] == c;
        assert((a + b)[i] == c);
    }
    if b.contains(c) {
        let i = choose|i: int| 0 <= i < b.len() && b[i] == c;
        assert((a + b)[a.len() + i] == c);
    }
}

/// The text of one right holds its letter when the right is held, and
/// nothing else.
proof fn lemma_right_text_contains(held: bool, letter: char, c: char)
    ensures
        right_text(held, letter).contains(c) <==> held && c == letter,
{
    if held && c == letter {
        assert(right_text(held, letter)[0] == c);
    }
}

/// The castling field is a field, and the rights are read back from it.
pub proof fn lemma_castling_round_trip(short: Set<ChessColor>, long: Set<ChessColor>)
    ensures
        is_field(castling_text(short, long)),
        sides_named(castling_text(short, long), PieceKind::King) == short,
        sides_named(castling_text(short, long), PieceKind::Queen) == long,
{
    let wk = right_text(short.contains(ChessColor::White), 'K');
    let wq = right_text(long.contains(ChessColor::White), 'Q');
    let bk = right_text(short.contains(ChessColor::Black), 'k');
    let bq = right_text(long.contains(ChessColor::Black), 'q');
    let held = wk + wq + bk + bq;
    assert forall|c: char|
        held.contains(c) <==> (short.contains(ChessColor::White) && c == 'K') || (long.contains(
            ChessColor::White,
        ) && c == 'Q') || (short.contains(ChessColor::Black) && c == 'k') || (long.contains(
            ChessColor::Black,
        ) && c == 'q') by {
        lemma_contains_concat(wk + wq + bk, bq, c);
        lemma_contains_concat(wk + wq, bk, c);
        lemma_contains_concat(wk, wq, c);
        lemma_right_text_contains(short.contains(ChessColor::White), 'K', c);
        lemma_right_text_contains(long.contains(ChessColor::White), 'Q', c);
        lemma_right_text_contains(short.contains(ChessColor::Black), 'k', c);
        lemma_right_text_contains(long.contains(ChessColor::Black), 'q', c);
    }
}

/// The first `n` squares of a board, with the others empty.
pub open spec fn filled(layout: Seq<Occupant>, n: int) -> Seq<Occupant> {
    Seq::new(
        64,
        |sq: int|
            if sq < n {
                layout[sq]
            } else {
                None
            },
    )
}

/// Reading two texts one after the other is reading the second from where
/// the first has got to.
pub proof fn lemma_place_from_concat(at: Placement, a: Seq<char>, b: Seq<char>)
    ensures
        place_from(at, a + b) == match place_from(at, a) {
            Some(mid) => place_from(mid, b),
            None => None,
        },
    decreases b.len(),
{
    if b.len() > 0 {
        assert((a + b).drop_last() =~= a + b.drop_last());
        lemma_place_from_concat(at, a, b.drop_last());
    }
}

/// A run of empty squares is no longer than the row so far.
pub proof fn lemma_gap_bounds(layout: Seq<Occupant>, y: int, n: int)
    requires
        0 <= n <= 8,
    ensures
        0 <= gap_before(layout, y, n) <= n,
    decreases n,
{
    if n > 0 && layout[y * 8 + n - 1] is None {
        lemma_gap_bounds(layout, y, n - 1);
    }
}

/// Reading the text of a run of empty squares moves the cursor past them.
proof fn lemma_place_gap(at: Placement, gap: int)
    requires
        0 <= gap <= 8,
    ensures
        place_from(at, gap_text(gap)) == Some(Placement { x: at.x + gap, ..at }),
        forall|i: int| 0 <= i < gap_text(gap).len() ==> !is_white_space(#[trigger] gap_text(gap)[i]),
{
    assert(place_from(at, Seq::<char>::empty()) == Some(at));
    if gap > 0 {
        assert(gap_text(gap).drop_last() =~= Seq::<char>::empty());
    }
}

/// Reading the text of the first `n` squares of a row fills them and
/// leaves the cursor behind the last piece among them.
proof fn lemma_place_row_upto(at: Placement, layout: Seq<Occupant>, y: int, n: int)
    requires
        layout.len() == 64,
        0 <= y < 8,
        0 <= n <= 8,
        at.layout == filled(layout, 8 * y),
        at.x == 0,
        at.y == y,
    ensures
        place_from(at, row_text_upto(layout, y, n)) matches Some(after) && {
            &&& after.layout == filled(layout, 8 * y + n)
            &&& after.x == n - gap_before(layout, y, n)
            &&& after.y == y
        },
        forall|i: int|
            0 <= i < row_text_upto(layout, y, n).len() ==> !is_white_space(
                #[trigger] row_text_upto(layout, y, n)[i],
            ),
    decreases n,
{
    if n > 0 {
        lemma_place_row_upto(at, layout, y, n - 1);
        lemma_gap_bounds(layout, y, n - 1);
        let before = row_text_upto(layout, y, n - 1);
        let mid = place_from(at, before).unwrap();
        match layout[y * 8 + n - 1] {
            Some((color, kind)) => {
                let gap = gap_before(layout, y, n - 1);
                let letter = seq![letter_of(color, kind)];
                lemma_place_gap(mid, gap);
                lemma_place_from_concat(at, before, gap_text(gap));
                lemma_place_from_concat(at, before + gap_text(gap), letter);
                let skipped = Placement { x: mid.x + gap, ..mid };
                assert(letter.drop_last() =~= Seq::<char>::empty());
                assert(place_from(skipped, Seq::<char>::empty()) == Some(skipped));
            },
            None => {},
        }
    }
}

/// Reading the text of a row fills the row and leaves the cursor at its
/// end.
proof fn lemma_place_row(at: Placement, layout: Seq<Occupant>, y: int)
    requires
        layout.len() == 64,
        0 <= y < 8,
        at.layout == filled(layout, 8 * y),
        at.x == 0,
        at.y == y,
    ensures
        place_from(at, row_text(layout, y)) matches Some(after) && {
            &&& after.layout == filled(layout, 8 * y + 8)
            &&& after.x == 8
            &&& after.y == y
        },
        is_field(row_text(layout, y)),
{
    lemma_place_row_upto(at, layout, y, 8);
    lemma_gap_bounds(layout, y, 8);
    let gap = gap_before(layout, y, 8);
    let mid = place_from(at, row_text_upto(layout, y, 8)).unwrap();
    lemma_place_gap(mid, gap);
    lemma_place_from_concat(at, row_text_upto(layout, y, 8), gap_text(gap));
}

/// Reading the text of the first `rows` rows fills them.
proof fn lemma_place_rows(layout: Seq<Occupant>, rows: int)
    requires
        layout.len() == 64,
        1 <= rows <= 8,
    ensures
        place_all(placement_text_upto(layout, rows)) matches Some(after) && {
            &&& after.layout == filled(layout, 8 * rows)
            &&& after.x == 8
            &&& after.y == rows - 1
        },
        is_field(placement_text_upto(layout, rows)),
    decreases rows,
{
    let start = empty_placement();
    if rows == 1 {
        assert(start.layout =~= filled(layout, 0));
        lemma_place_row(start, layout, 0);
    } else {
        lemma_place_rows(layout, rows - 1);
        let before = placement_text_upto(layout, rows - 1);
        let mid = place_all(before).unwrap();
        let slash = seq!['/'];
        assert(slash.drop_last() =~= Seq::<char>::empty());
        assert(place_from(mid, Seq::<char>::empty()) == Some(mid));
        let next = Placement { x: 0, y: mid.y + 1, ..mid };
        lemma_place_from_concat(start, before, slash);
        lemma_place_row(next, layout, rows - 1);
        lemma_place_from_concat(start, before + slash, row_text(layout, rows - 1));
    }
}

/// The squares of a board are read back from their text.
pub proof fn lemma_placement_round_trip(layout: Seq<Occupant>)
    requires
        layout.len() == 64,
    ensures
        place_all(placement_text_upto(layout, 8)) matches Some(after) && after.layout == layout,
        is_field(placement_text_upto(layout, 8)),
{
    lemma_place_rows(layout, 8);
}

/// A well-formed position whose counters fit in 32 bits is read back from
/// the text that it is written as.
pub proof fn lemma_fen_round_trip(p: Position)
    requires
        p.wf(),
        p.halfmove_clock <= u32::MAX,
        p.fullmove_number <= u32::MAX,
    ensures
        parse_fen(fen_text(p)) == Some(p),
{
    let placement = placement_text_upto(p.layout, 8);
    let side = side_text(p.side_to_move);
    let castling = castling_text(p.castle_short, p.castle_long);
    let target = en_passant_text(p.en_passant);
    let halfmove = decimal_text(p.halfmove_clock);
    let fullmove = decimal_text(p.fullmove_number);
    lemma_placement_round_trip(p.layout);
    lemma_castling_round_trip(p.castle_short, p.castle_long);
    lemma_decimal_round_trip(p.halfmove_clock);
    lemma_decimal_round_trip(p.fullmove_number);
    assert(side_of(side) == Some(p.side_to_move)) by {
        assert(seq!['b'][0] != seq!['w'][0]);
    }
    lemma_fields_of_six(placement, side, castling, target, halfmove, fullmove);
}

} // verus!
