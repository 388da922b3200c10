//! What a move does to a position.
//!
//! Application trusts the move: it tests neither that the move obeys the
//! way its piece moves nor that it was offered by the position. What it
//! asks of a move is stated by `applicable`, which every offered move meets
//! as long as the counters have room to grow.

use vstd::prelude::*;
use crate::chess_color::ChessColor;
use crate::chess_move::{MoveFlags, MoveView};
use crate::chess_piece::{Occupant, PieceKind};
use crate::generation::{forward, generated_moves, lemma_generated_moves_ok, offered_ok};
use crate::geometry::{col_of, edge_distance, on_board, ray_square, row_of, EAST, WEST};
use crate::position::Position;

verus! {

/// Whether a square lies on the first or the last rank.
pub open spec fn on_back_rank(sq: int) -> bool {
    sq < 8 || sq > 55
}

/// Whether a square lies in the half of the board where the queens start,
/// files a to d.
pub open spec fn in_long_half(sq: int) -> bool {
    col_of(sq) < 4
}

/// Whether a square lies in the half of the board where the kings start,
/// files e to h.
pub open spec fn in_short_half(sq: int) -> bool {
    col_of(sq) >= 4
}

/// The square half-way between the two ends of a move, next to the origin
/// when the distance is odd.
pub open spec fn passed_square(m: MoveView) -> int {
    if m.from >= m.to {
        m.from - (m.from - m.to) / 2
    } else {
        m.from + (m.to - m.from) / 2
    }
}

/// Whether the move is a king's castling move to the given side.
pub open spec fn is_castle(p: Position, m: MoveView, flags: MoveFlags) -> bool {
    p.has_kind(m.from, PieceKind::King) && m.flags == flags
}

/// What a move must meet to be applied: a castling king has its rook's
/// corner on its own rank, three squares east or four squares west, and a
/// counter that is to grow is below the largest 32-bit number.
pub open spec fn applicable(p: Position, m: MoveView) -> bool {
    &&& is_castle(p, m, MoveFlags::CastleShort) ==> edge_distance(m.from, EAST as int) >= 3
    &&& is_castle(p, m, MoveFlags::CastleLong) ==> edge_distance(m.from, WEST as int) >= 4
    &&& !resets_clock(p, m) ==> p.halfmove_clock < u32::MAX
    &&& p.side_to_move == ChessColor::Black ==> p.fullmove_number < u32::MAX
}

/// Whether the move is a pawn move or a capture.
pub open spec fn resets_clock(p: Position, m: MoveView) -> bool {
    p.has_kind(m.from, PieceKind::Pawn) || !p.is_vacant(m.to)
}

/// The squares after the rook of a castling king has gone to the king's
/// other side; unchanged for any other move.
pub open spec fn layout_after_castle(p: Position, m: MoveView) -> Seq<Occupant> {
    if is_castle(p, m, MoveFlags::CastleLong) {
        p.layout.update(m.from - 1, p.layout[m.from - 4]).update(m.from - 4, None)
    } else if is_castle(p, m, MoveFlags::CastleShort) {
        p.layout.update(m.from + 1, p.layout[m.from + 3]).update(m.from + 3, None)
    } else {
        p.layout
    }
}

/// The square of the pawn that an en passant capture takes: in the file of
/// the target, on the rank that the capturing pawn leaves.
pub open spec fn en_passant_victim(m: MoveView, target: int) -> int {
    row_of(m.from) * 8 + col_of(target)
}

/// What arrives on the destination: a queen of the side to move in place of
/// a pawn that reaches the first or last rank, else the piece that moved.
pub open spec fn arriving_piece(p: Position, m: MoveView) -> Occupant {
    if p.has_kind(m.from, PieceKind::Pawn) && on_back_rank(m.to) {
        Some((p.side_to_move, PieceKind::Queen))
    } else {
        p.layout[m.from]
    }
}

/// The squares after the move.
pub open spec fn layout_after(p: Position, m: MoveView) -> Seq<Occupant> {
    let castled = layout_after_castle(p, m);
    let taken = match p.en_passant {
        Some(target) => if m.flags == MoveFlags::EnPassant {
            castled.update(en_passant_victim(m, target), None)
        } else {
            castled
        },
        None => castled,
    };
    taken.update(m.to, arriving_piece(p, m)).update(m.from, None)
}

/// The side of the rook that leaves `sq`, if a rook stands there.
pub open spec fn rook_side(p: Position, sq: int) -> Option<ChessColor> {
    match p.layout[sq] {
        Some((color, PieceKind::Rook)) => Some(color),
        _ => None,
    }
}

/// What a move leaves of a set of castling rights, where `in_half` says
/// whether the move's origin and destination lie in the half of the board
/// that the rights belong to: the side to move loses its right with any
/// move of a king; a rook that leaves that half loses its side the right;
/// and the other side loses its right when a rook is taken in that half.
pub open spec fn rights_left(
    p: Position,
    m: MoveView,
    rights: Set<ChessColor>,
    from_in_half: bool,
    to_in_half: bool,
) -> Set<ChessColor> {
    let after_king = if p.has_kind(m.from, PieceKind::King) {
        rights.remove(p.side_to_move)
    } else {
        rights
    };
    let after_rook = match rook_side(p, m.from) {
        Some(color) => if from_in_half {
            after_king.remove(color)
        } else {
            after_king
        },
        None => after_king,
    };
    if p.has_kind(m.to, PieceKind::Rook) && to_in_half {
        after_rook.remove(p.side_to_move.other())
    } else {
        after_rook
    }
}

/// The sides that may castle short after the move.
pub open spec fn castle_short_after(p: Position, m: MoveView) -> Set<ChessColor> {
    rights_left(p, m, p.castle_short, in_short_half(m.from), in_short_half(m.to))
}

/// The sides that may castle long after the move.
pub open spec fn castle_long_after(p: Position, m: MoveView) -> Set<ChessColor> {
    rights_left(p, m, p.castle_long, in_long_half(m.from), in_long_half(m.to))
}

/// The position after the move.
pub open spec fn apply_move(p: Position, m: MoveView) -> Position {
    Position {
        layout: layout_after(p, m),
        side_to_move: p.side_to_move.other(),
        castle_short: castle_short_after(p, m),
        castle_long: castle_long_after(p, m),
        en_passant: if m.flags == MoveFlags::PawnTwoForward {
            Some(passed_square(m))
        } else {
            None
        },
        halfmove_clock: if resets_clock(p, m) {
            0
        } else {
            p.halfmove_clock + 1
        },
        fullmove_number: if p.side_to_move == ChessColor::Black {
            p.fullmove_number + 1
        } else {
            p.fullmove_number
        },
    }
}

/// The position after a line of moves, each applied to what the one before
/// it left.
pub open spec fn play(p: Position, line: Seq<MoveView>) -> Position
    decreases line.len(),
{
    if line.len() == 0 {
        p
    } else {
        apply_move(play(p, line.drop_last()), line.last())
    }
}

/// Every move that a position offers can be applied to it, as long as its
/// counters are below the largest 32-bit number.
pub proof fn lemma_offered_moves_applicable(p: Position, i: int)
    requires
        0 <= i < generated_moves(p).len(),
        p.halfmove_clock < u32::MAX,
        p.fullmove_number < u32::MAX,
    ensures
        applicable(p, generated_moves(p)[i]),
{
    lemma_generated_moves_ok(p);
}

/// Applying a move between two squares of the board to a well-formed
/// position gives a well-formed position.
pub proof fn lemma_apply_move_wf(p: Position, m: MoveView)
    requires
        p.wf(),
        on_board(m.from),
        on_board(m.to),
        applicable(p, m),
    ensures
        apply_move(p, m).wf(),
{
}

/// No move gives a castling right to either side: the rights after a move
/// are among the rights before it.
pub proof fn lemma_rights_only_shrink(p: Position, m: MoveView)
    ensures
        apply_move(p, m).castle_short.subset_of(p.castle_short),
        apply_move(p, m).castle_long.subset_of(p.castle_long),
{
}

/// No line of moves gives a castling right to either side.
pub proof fn lemma_play_rights_only_shrink(p: Position, line: Seq<MoveView>)
    ensures
        play(p, line).castle_short.subset_of(p.castle_short),
        play(p, line).castle_long.subset_of(p.castle_long),
    decreases line.len(),
{
    if line.len() > 0 {
        lemma_play_rights_only_shrink(p, line.drop_last());
    }
}

/// After the side to move has moved its king, it holds neither castling
/// right in any later position of the game, whatever moves follow, and no
/// later position offers it a castling move.
pub proof fn lemma_king_move_ends_castling(p: Position, m: MoveView, line: Seq<MoveView>)
    requires
        p.layout[m.from] == Some((p.side_to_move, PieceKind::King)),
    ensures
        ({
            let later = play(apply_move(p, m), line);
            &&& !later.castle_short.contains(p.side_to_move)
            &&& !later.castle_long.contains(p.side_to_move)
            &&& later.side_to_move == p.side_to_move ==> forall|i: int|
                0 <= i < generated_moves(later).len() ==> (#[trigger] generated_moves(
                    later,
                )[i]).flags != MoveFlags::CastleShort && generated_moves(later)[i].flags
                    != MoveFlags::CastleLong
        }),
{
    let later = play(apply_move(p, m), line);
    lemma_play_rights_only_shrink(apply_move(p, m), line);
    lemma_generated_moves_ok(later);
}

/// A position has an en passant target exactly when the move that led to
/// it was tagged as a pawn's double step; the target is then the square
/// half-way along the move, and for a double step that a position offers,
/// the square that the pawn passed over.
pub proof fn lemma_en_passant_lifetime(p: Position, m: MoveView)
    ensures
        apply_move(p, m).en_passant is Some <==> m.flags == MoveFlags::PawnTwoForward,
        m.flags == MoveFlags::PawnTwoForward ==> apply_move(p, m).en_passant == Some(
            passed_square(m),
        ),
        m.flags == MoveFlags::PawnTwoForward && offered_ok(p, m) ==> passed_square(m) == ray_square(
            m.from,
            forward(p.side_to_move),
            1,
        ),
{
}

/// The halfmove clock is 0 after a pawn move or a capture and one more
/// than before after any other move; the fullmove number is one more than
/// before after a move by Black and unchanged after a move by White.
pub proof fn lemma_counters(p: Position, m: MoveView)
    ensures
        resets_clock(p, m) ==> apply_move(p, m).halfmove_clock == 0,
        !resets_clock(p, m) ==> apply_move(p, m).halfmove_clock == p.halfmove_clock + 1,
        p.side_to_move == ChessColor::Black ==> apply_move(p, m).fullmove_number
            == p.fullmove_number + 1,
        p.side_to_move == ChessColor::White ==> apply_move(p, m).fullmove_number
            == p.fullmove_number,
        apply_move(p, m).side_to_move == p.side_to_move.other(),
{
}

/// A pawn of the side to move that reaches the first or the last rank
/// stands there as a queen of its own side after the move, whatever the
/// move's tag.
pub proof fn lemma_pawn_promotes(p: Position, m: MoveView)
    requires
        p.wf(),
        on_board(m.from),
        on_board(m.to),
        m.from != m.to,
        p.layout[m.from] == Some((p.side_to_move, PieceKind::Pawn)),
        on_back_rank(m.to),
    ensures
        apply_move(p, m).layout[m.to] == Some((p.side_to_move, PieceKind::Queen)),
{
}

} // verus!
