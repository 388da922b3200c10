//! A position as a plain mathematical value: what the board engine's state
//! stands for, and what the rules of generation and application speak of.

use vstd::prelude::*;
use crate::chess_color::ChessColor;
use crate::chess_piece::{Occupant, PieceKind};
use crate::geometry::on_board;

verus! {

/// A position.
#[verifier::ext_equal]
pub struct Position {
    /// What stands on each of the 64 squares.
    pub layout: Seq<Occupant>,
    /// The side whose turn it is.
    pub side_to_move: ChessColor,
    /// The sides that may still castle towards the h-file.
    pub castle_short: Set<ChessColor>,
    /// The sides that may still castle towards the a-file.
    pub castle_long: Set<ChessColor>,
    /// The square that a pawn has just passed over with a double step.
    pub en_passant: Option<int>,
    /// Moves made since the last pawn move or capture.
    pub halfmove_clock: int,
    /// The number of the current full move; it grows after Black's move.
    pub fullmove_number: int,
}

impl Position {
    /// The position has 64 squares, an en passant target on the board if it
    /// has one, and counters that are not negative.
    pub open spec fn wf(self) -> bool {
        &&& self.layout.len() == 64
        &&& self.en_passant matches Some(target) ==> on_board(target)
        &&& 0 <= self.halfmove_clock
        &&& 0 <= self.fullmove_number
    }

    /// Whether `sq` is empty.
    pub open spec fn is_vacant(self, sq: int) -> bool {
        self.layout[sq] is None
    }

    /// Whether a piece of the side to move stands on `sq`.
    pub open spec fn is_own(self, sq: int) -> bool {
        self.layout[sq] matches Some((color, _)) && color == self.side_to_move
    }

    /// Whether a piece of the other side stands on `sq`.
    pub open spec fn is_enemy(self, sq: int) -> bool {
        self.layout[sq] matches Some((color, _)) && color != self.side_to_move
    }

    /// Whether a piece of the given kind, of either side, stands on `sq`.
    pub open spec fn has_kind(self, sq: int, kind: PieceKind) -> bool {
        self.layout[sq] matches Some((_, k)) && k == kind
    }
}

} // verus!
