//! The rules core of a chess program: a compact board position, the
//! pseudo-legal moves it offers to the side to move, and what a move does
//! to it.
//!
//! The rules are stated over plain mathematical values. `position` holds
//! the model of a position, `geometry` the shape of the board,
//! `generation` the moves that a position offers and `application` the
//! position that a move leads to; `fen` is the grammar of the six-field
//! position notation. The executable types, `ChessPiece`, `ChessMove` and
//! `ChessBoard`, pack these values into bytes, words and tables, and every
//! operation on them is proved to compute what the rules say.

use vstd::prelude::*;
use vstd::string::*;

pub mod application;
pub mod chess_board;
pub mod chess_color;
pub mod chess_coordinate;
pub mod chess_move;
pub mod chess_piece;
pub mod fen;
pub mod fen_round_trip;
pub mod generation;
pub mod geometry;
pub mod position;
mod text;

verus! {

/// Number of files on the board.
pub const CHESS_BOARD_WIDTH: usize = 8;

/// Number of ranks on the board.
pub const CHESS_BOARD_HEIGHT: usize = 8;

/// Number of squares on the board.
pub const CHESS_BOARD_SIZE: usize = 64;

/// Number of sides in a game.
pub const CHESS_COLORS: usize = 2;

/// A malformed square name or piece code.
#[derive(Debug)]
pub struct InvalidNotationError;

impl InvalidNotationError {
    /// What went wrong, in words.
    pub fn message(&self) -> (text: String)
        ensures
            text@ == "The Notation provided is invalid"@,
    {
        String::from_str("The Notation provided is invalid")
    }
}

/// A malformed six-field position string.
#[derive(Debug)]
pub struct InvalidFENError;

impl InvalidFENError {
    /// What went wrong, in words.
    pub fn message(&self) -> (text: String)
        ensures
            text@ == "The FEN provided is invalid"@,
    {
        String::from_str("The FEN provided is invalid")
    }
}

} // verus!
