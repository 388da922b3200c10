//! Which moves a position offers to the side to move.
//!
//! The moves are pseudo-legal: each obeys the way its piece moves and the
//! occupancy of the squares involved, and none is tested for leaving the
//! mover's own king attacked. They are listed square by square in index
//! order and, for one square, direction by direction.

use vstd::prelude::*;
use crate::chess_color::ChessColor;
use crate::chess_move::{MoveFlags, MoveView};
use crate::chess_piece::PieceKind;
use crate::geometry::{
    edge_distance, knight_targets, lemma_knight_targets_on_board, lemma_neighbours_on_board,
    lemma_ray_on_board, neighbours, on_board, ray_square, EAST, NORTH, SOUTH, WEST,
};
use crate::position::Position;

verus! {

/// An ordinary move.
pub open spec fn plain(from: int, to: int) -> MoveView {
    MoveView { from, to, flags: MoveFlags::Plain }
}

/// The moves of a piece that steps or jumps: one to each of `targets`, in
/// order, that holds no piece of the side to move.
pub open spec fn hop_moves(p: Position, from: int, targets: Seq<int>) -> Seq<MoveView>
    decreases targets.len(),
{
    if targets.len() == 0 {
        Seq::empty()
    } else if p.is_own(targets.last()) {
        hop_moves(p, from, targets.drop_last())
    } else {
        hop_moves(p, from, targets.drop_last()).push(plain(from, targets.last()))
    }
}

/// Whether the king on `from` may castle short: its side holds the right,
/// the rook's corner lies three squares east on the same rank, and the two
/// squares between them are empty.
pub open spec fn castle_short_open(p: Position, from: int) -> bool {
    &&& p.castle_short.contains(p.side_to_move)
    &&& edge_distance(from, EAST as int) >= 3
    &&& p.is_vacant(from + 1)
    &&& p.is_vacant(from + 2)
}

/// Whether the king on `from` may castle long: its side holds the right,
/// the rook's corner lies four squares west on the same rank, and the three
/// squares between them are empty.
pub open spec fn castle_long_open(p: Position, from: int) -> bool {
    &&& p.castle_long.contains(p.side_to_move)
    &&& edge_distance(from, WEST as int) >= 4
    &&& p.is_vacant(from - 1)
    &&& p.is_vacant(from - 2)
    &&& p.is_vacant(from - 3)
}

/// The castling moves of the king on `from`, short before long.
pub open spec fn castle_moves(p: Position, from: int) -> Seq<MoveView> {
    let short = if castle_short_open(p, from) {
        seq![MoveView { from, to: from + 2, flags: MoveFlags::CastleShort }]
    } else {
        Seq::empty()
    };
    let long = if castle_long_open(p, from) {
        seq![MoveView { from, to: from - 2, flags: MoveFlags::CastleLong }]
    } else {
        Seq::empty()
    };
    short + long
}

/// The moves of the king on `from`.
pub open spec fn king_moves(p: Position, from: int) -> Seq<MoveView> {
    hop_moves(p, from, neighbours(from)) + castle_moves(p, from)
}

/// The moves of the knight on `from`.
pub open spec fn knight_moves(p: Position, from: int) -> Seq<MoveView> {
    hop_moves(p, from, knight_targets(from))
}

/// The moves along one ray from its `step`-th square on: the walk stops
/// before a piece of the side to move, stops on a piece of the other side,
/// and ends at the edge.
pub open spec fn ray_moves_from(p: Position, from: int, dir: int, step: int) -> Seq<MoveView>
    decreases edge_distance(from, dir) - step + 1,
{
    let to = ray_square(from, dir, step);
    if step > edge_distance(from, dir) || p.is_own(to) {
        Seq::empty()
    } else if p.is_vacant(to) {
        seq![plain(from, to)] + ray_moves_from(p, from, dir, step + 1)
    } else {
        seq![plain(from, to)]
    }
}

/// The moves along one ray.
pub open spec fn ray_moves(p: Position, from: int, dir: int) -> Seq<MoveView> {
    ray_moves_from(p, from, dir, 1)
}

/// The moves of a sliding piece on `from` along the directions from `start`
/// up to, not including, `end`.
pub open spec fn sliding_moves(p: Position, from: int, start: int, end: int) -> Seq<MoveView>
    decreases end - start,
{
    if start >= end {
        Seq::empty()
    } else {
        sliding_moves(p, from, start, end - 1) + ray_moves(p, from, end - 1)
    }
}

/// The direction in which the pawns of a side advance.
pub open spec fn forward(color: ChessColor) -> int {
    match color {
        ChessColor::White => NORTH as int,
        ChessColor::Black => SOUTH as int,
    }
}

/// The advances of the pawn on `from`: one square if it is empty, and two,
/// tagged as a double step, from the pawn's first rank if both are empty.
pub open spec fn pawn_advances(p: Position, from: int, ahead: int) -> Seq<MoveView> {
    let one = ray_square(from, ahead, 1);
    let two = ray_square(from, ahead, 2);
    if !p.is_vacant(one) {
        Seq::empty()
    } else if edge_distance(from, ahead) == 6 && p.is_vacant(two) {
        seq![plain(from, one), MoveView { from, to: two, flags: MoveFlags::PawnTwoForward }]
    } else {
        seq![plain(from, one)]
    }
}

/// The en passant capture of the pawn on `from` towards the diagonal `dir`,
/// offered when the square there is the en passant target.
pub open spec fn pawn_en_passant(p: Position, from: int, dir: int) -> Seq<MoveView> {
    let to = ray_square(from, dir, 1);
    if edge_distance(from, dir) >= 1 && p.en_passant == Some(to) {
        seq![MoveView { from, to, flags: MoveFlags::EnPassant }]
    } else {
        Seq::empty()
    }
}

/// The capture of the pawn on `from` towards the diagonal `dir`, offered
/// when a piece of the other side stands there.
pub open spec fn pawn_capture(p: Position, from: int, dir: int) -> Seq<MoveView> {
    let to = ray_square(from, dir, 1);
    if edge_distance(from, dir) >= 1 && p.is_enemy(to) {
        seq![plain(from, to)]
    } else {
        Seq::empty()
    }
}

/// The moves of the pawn on `from` that advances in direction `ahead`
/// (north or south): advances, then en passant captures, then captures,
/// each towards the west before the east.
pub open spec fn pawn_moves(p: Position, from: int, ahead: int) -> Seq<MoveView> {
    if edge_distance(from, ahead) < 1 {
        Seq::empty()
    } else {
        pawn_advances(p, from, ahead) + pawn_en_passant(p, from, 4 + ahead) + pawn_en_passant(
            p,
            from,
            5 + ahead,
        ) + pawn_capture(p, from, 4 + ahead) + pawn_capture(p, from, 5 + ahead)
    }
}

/// The moves of whatever stands on `from`: none unless it is a piece of the
/// side to move.
pub open spec fn piece_moves(p: Position, from: int) -> Seq<MoveView> {
    match p.layout[from] {
        Some((color, kind)) => if color == p.side_to_move {
            match kind {
                PieceKind::King => king_moves(p, from),
                PieceKind::Queen => sliding_moves(p, from, 0, 8),
                PieceKind::Rook => sliding_moves(p, from, 0, 4),
                PieceKind::Bishop => sliding_moves(p, from, 4, 8),
                PieceKind::Knight => knight_moves(p, from),
                PieceKind::Pawn => pawn_moves(p, from, forward(color)),
            }
        } else {
            Seq::empty()
        },
        None => Seq::empty(),
    }
}

/// The moves of the pieces on the first `n` squares.
pub open spec fn moves_upto(p: Position, n: int) -> Seq<MoveView>
    decreases n,
{
    if n <= 0 {
        Seq::empty()
    } else {
        moves_upto(p, n - 1) + piece_moves(p, n - 1)
    }
}

/// All moves that the position offers to the side to move.
pub open spec fn generated_moves(p: Position) -> Seq<MoveView> {
    moves_upto(p, 64)
}

/// One more target adds its move unless a piece of the side to move stands
/// on it.
pub proof fn lemma_hop_moves_push(p: Position, from: int, targets: Seq<int>, target: int)
    ensures
        hop_moves(p, from, targets.push(target)) == if p.is_own(target) {
            hop_moves(p, from, targets)
        } else {
            hop_moves(p, from, targets).push(plain(from, target))
        },
{
    assert(targets.push(target).drop_last() =~= targets);
}

/// What holds of every move that a position offers: it leads from a piece
/// of the side to move to a square of the board; an ordinary move does not
/// end on a piece of the mover; a castling move is a king's, with the right
/// held and the squares towards the rook empty; a double step is a pawn's,
/// from its first rank over two empty squares; an en passant capture is a
/// pawn's, onto the en passant target; and no move is tagged as a
/// promotion.
pub open spec fn offered_ok(p: Position, m: MoveView) -> bool {
    &&& on_board(m.from)
    &&& on_board(m.to)
    &&& p.is_own(m.from)
    &&& match m.flags {
        MoveFlags::Plain => !p.is_own(m.to),
        MoveFlags::EnPassant => p.has_kind(m.from, PieceKind::Pawn) && p.en_passant == Some(m.to),
        MoveFlags::CastleShort => {
            &&& p.has_kind(m.from, PieceKind::King)
            &&& castle_short_open(p, m.from)
            &&& m.to == m.from + 2
        },
        MoveFlags::CastleLong => {
            &&& p.has_kind(m.from, PieceKind::King)
            &&& castle_long_open(p, m.from)
            &&& m.to == m.from - 2
        },
        MoveFlags::PawnTwoForward => {
            &&& p.has_kind(m.from, PieceKind::Pawn)
            &&& edge_distance(m.from, forward(p.side_to_move)) == 6
            &&& m.to == ray_square(m.from, forward(p.side_to_move), 2)
            &&& p.is_vacant(ray_square(m.from, forward(p.side_to_move), 1))
            &&& p.is_vacant(m.to)
        },
        _ => false,
    }
}

/// Whether `offered_ok` holds of every move of a list.
pub open spec fn all_offered_ok(p: Position, moves: Seq<MoveView>) -> bool {
    forall|i: int| 0 <= i < moves.len() ==> offered_ok(p, #[trigger] moves[i])
}

/// Whether every move of a list is an ordinary move from `from`.
pub open spec fn all_plain_from(moves: Seq<MoveView>, from: int) -> bool {
    forall|i: int|
        0 <= i < moves.len() ==> (#[trigger] moves[i]).from == from && moves[i].flags
            == MoveFlags::Plain
}

proof fn lemma_hop_moves_ok(p: Position, from: int, targets: Seq<int>)
    requires
        on_board(from),
        p.is_own(from),
        forall|j: int| 0 <= j < targets.len() ==> on_board(#[trigger] targets[j]),
    ensures
        all_offered_ok(p, hop_moves(p, from, targets)),
        all_plain_from(hop_moves(p, from, targets), from),
    decreases targets.len(),
{
    if targets.len() > 0 {
        lemma_hop_moves_ok(p, from, targets.drop_last());
    }
}

proof fn lemma_ray_moves_ok(p: Position, from: int, dir: int, step: int)
    requires
        on_board(from),
        p.is_own(from),
        0 <= dir < 8,
        1 <= step,
    ensures
        all_offered_ok(p, ray_moves_from(p, from, dir, step)),
        all_plain_from(ray_moves_from(p, from, dir, step), from),
    decreases edge_distance(from, dir) - step + 1,
{
    if step <= edge_distance(from, dir) {
        lemma_ray_on_board(from, dir, step);
        lemma_ray_moves_ok(p, from, dir, step + 1);
    }
}

proof fn lemma_sliding_moves_ok(p: Position, from: int, start: int, end: int)
    requires
        on_board(from),
        p.is_own(from),
        0 <= start,
        end <= 8,
    ensures
        all_offered_ok(p, sliding_moves(p, from, start, end)),
        all_plain_from(sliding_moves(p, from, start, end), from),
    decreases end - start,
{
    if start < end {
        lemma_sliding_moves_ok(p, from, start, end - 1);
        lemma_ray_moves_ok(p, from, end - 1, 1);
    }
}

proof fn lemma_king_moves_ok(p: Position, from: int)
    requires
        on_board(from),
        p.is_own(from),
        p.has_kind(from, PieceKind::King),
    ensures
        all_offered_ok(p, king_moves(p, from)),
{
    lemma_neighbours_on_board(from, 8);
    lemma_hop_moves_ok(p, from, neighbours(from));
}

proof fn lemma_pawn_moves_ok(p: Position, from: int)
    requires
        on_board(from),
        p.is_own(from),
        p.has_kind(from, PieceKind::Pawn),
    ensures
        all_offered_ok(p, pawn_moves(p, from, forward(p.side_to_move))),
{
}

proof fn lemma_piece_moves_ok(p: Position, from: int)
    requires
        on_board(from),
    ensures
        all_offered_ok(p, piece_moves(p, from)),
{
    match p.layout[from] {
        Some((color, kind)) => {
            if color == p.side_to_move {
                match kind {
                    PieceKind::King => lemma_king_moves_ok(p, from),
                    PieceKind::Queen => lemma_sliding_moves_ok(p, from, 0, 8),
                    PieceKind::Rook => lemma_sliding_moves_ok(p, from, 0, 4),
                    PieceKind::Bishop => lemma_sliding_moves_ok(p, from, 4, 8),
                    PieceKind::Knight => {
                        lemma_knight_targets_on_board(from, 8);
                        lemma_hop_moves_ok(p, from, knight_targets(from));
                    },
                    PieceKind::Pawn => lemma_pawn_moves_ok(p, from),
                }
            }
        },
        None => {},
    }
}

proof fn lemma_moves_upto_ok(p: Position, n: int)
    requires
        0 <= n <= 64,
    ensures
        all_offered_ok(p, moves_upto(p, n)),
    decreases n,
{
    if n > 0 {
        lemma_moves_upto_ok(p, n - 1);
        lemma_piece_moves_ok(p, n - 1);
    }
}

/// Every move that a position offers meets `offered_ok`.
pub proof fn lemma_generated_moves_ok(p: Position)
    ensures
        all_offered_ok(p, generated_moves(p)),
{
    lemma_moves_upto_ok(p, 64);
}

/// No move that a position offers to a knight, a bishop, a rook or a queen
/// ends on a square that holds a piece of the mover's own side.
pub proof fn lemma_capture_exclusivity(p: Position, i: int)
    requires
        0 <= i < generated_moves(p).len(),
    ensures
        ({
            let m = generated_moves(p)[i];
            p.has_kind(m.from, PieceKind::Knight) || p.has_kind(m.from, PieceKind::Bishop)
                || p.has_kind(m.from, PieceKind::Rook) || p.has_kind(m.from, PieceKind::Queen)
                ==> !p.is_own(m.to)
        }),
{
    lemma_generated_moves_ok(p);
}

/// A position offers a castling move only to a side that holds the right
/// to castle that way, and only when the squares between the king and the
/// rook's corner are empty.
pub proof fn lemma_castling_gated(p: Position, i: int)
    requires
        0 <= i < generated_moves(p).len(),
    ensures
        ({
            let m = generated_moves(p)[i];
            &&& m.flags == MoveFlags::CastleShort ==> {
                &&& p.castle_short.contains(p.side_to_move)
                &&& p.is_vacant(m.from + 1)
                &&& p.is_vacant(m.from + 2)
            }
            &&& m.flags == MoveFlags::CastleLong ==> {
                &&& p.castle_long.contains(p.side_to_move)
                &&& p.is_vacant(m.from - 1)
                &&& p.is_vacant(m.from - 2)
                &&& p.is_vacant(m.from - 3)
            }
        }),
{
    lemma_generated_moves_ok(p);
}

} // verus!
