//! The board engine: a position together with the geometry tables that
//! move generation reads.

use vstd::prelude::*;
use crate::application::{
    applicable, apply_move, castle_long_after, castle_short_after, layout_after_castle,
};
use crate::chess_color::{ChessColor, ColorSet};
use crate::chess_coordinate::square_of_letters;
use crate::chess_move::{lemma_move_views_push, move_views, ChessMove, MoveFlags, MoveView};
use crate::chess_piece::{occupants, ChessPiece, PieceKind};
use crate::fen::{
    fen_text, parse_fen, placement_text_upto, push_blank, push_castling, push_decimal,
    push_en_passant, push_row, push_side, read_castling, read_counter, read_placement, read_side,
    split_fields, texts,
};
use crate::generation::{
    generated_moves, hop_moves, king_moves, knight_moves, lemma_hop_moves_push, moves_upto,
    pawn_advances, pawn_capture, pawn_en_passant, pawn_moves, ray_moves, ray_moves_from,
    sliding_moves,
};
use crate::geometry::{
    edge_distance, knight_targets, knight_targets_upto, least, lemma_knight_targets_on_board,
    lemma_ray_on_board, neighbours_upto, on_board, ray_square, EAST, NORTH, SOUTH, WEST,
};
use crate::position::Position;
use crate::text::{chars_of, push_char};
use crate::InvalidFENError;

verus! {

/// How the index changes with one step in each of the eight directions:
/// north, east, south, west, north-west, north-east, south-west, south-east.
pub const DIRECTION_OFFSETS: [i32; 8] = [-8, 1, 8, -1, -9, -7, 7, 9];

/// How the index changes with each of the eight knight jumps.
pub const KNIGHT_OFFSETS: [i32; 8] = [-15, -6, 10, 17, 15, 6, -10, -17];

/// Whether a table holds, for every square and direction, the distance to
/// the edge.
spec fn edges_match(table: Seq<[usize; 8]>) -> bool {
    &&& table.len() == 64
    &&& forall|sq: int, dir: int|
        0 <= sq < 64 && 0 <= dir < 8 ==> (#[trigger] table[sq]@[dir]) as int == edge_distance(
            sq,
            dir,
        )
}

/// Whether a list holds the knight targets of a square, in order.
spec fn jump_list_matches(list: Seq<usize>, targets: Seq<int>) -> bool {
    &&& list.len() == targets.len()
    &&& forall|j: int| 0 <= j < list.len() ==> (#[trigger] list[j]) as int == targets[j]
}

/// Whether a table holds, for every square, its knight targets.
spec fn jumps_match(table: Seq<Vec<usize>>) -> bool {
    &&& table.len() == 64
    &&& forall|sq: int|
        0 <= sq < 64 ==> jump_list_matches((#[trigger] table[sq])@, knight_targets(sq))
}

/// Appending five lists one after another appends their concatenation.
proof fn lemma_append_five<A>(
    base: Seq<A>,
    a: Seq<A>,
    b: Seq<A>,
    c: Seq<A>,
    d: Seq<A>,
    e: Seq<A>,
)
    ensures
        base + a + b + c + d + e == base + (a + b + c + d + e),
{
}

/// The smaller of two numbers.
fn smaller(a: usize, b: usize) -> (m: usize)
    ensures
        m as int == least(a as int, b as int),
{
    if a <= b {
        a
    } else {
        b
    }
}

/// The board engine's state.
#[derive(Debug)]
pub struct ChessBoard {
    layout: [ChessPiece; 64],
    color_to_move: ChessColor,
    can_castle_long: ColorSet,
    can_castle_short: ColorSet,
    en_passant_target: Option<u16>,
    halfmove_clock: u32,
    fullmove_number: u32,
    squares_to_edge: [[usize; 8]; 64],
    knight_jumps: Vec<Vec<usize>>,
}

impl View for ChessBoard {
    type V = Position;

    closed spec fn view(&self) -> Position {
        Position {
            layout: occupants(self.layout),
            side_to_move: self.color_to_move,
            castle_short: self.can_castle_short@,
            castle_long: self.can_castle_long@,
            en_passant: match self.en_passant_target {
                Some(target) => if target < 64 {
                    Some(target as int)
                } else {
                    None
                },
                None => None,
            },
            halfmove_clock: self.halfmove_clock as int,
            fullmove_number: self.fullmove_number as int,
        }
    }
}

impl ChessBoard {
    /// The geometry tables are those of the board, and an en passant target
    /// is a square.
    #[verifier::type_invariant]
    spec fn inv(self) -> bool {
        &&& edges_match(self.squares_to_edge@)
        &&& jumps_match(self.knight_jumps@)
        &&& self.en_passant_target matches Some(target) ==> target < 64
    }

    /// Computes the geometry tables: for every square the distance to the
    /// edge in each direction, and the squares a knight can jump to.
    fn precompute_board_data() -> (tables: ([[usize; 8]; 64], Vec<Vec<usize>>))
        ensures
            edges_match(tables.0@),
            jumps_match(tables.1@),
    {
        let mut squares_to_edge: [[usize; 8]; 64] = [[0; 8]; 64];
        let mut knight_jumps: Vec<Vec<usize>> = Vec::new();
        for idx in 0..64usize
            invariant
                knight_jumps@.len() == idx,
                forall|sq: int, dir: int|
                    0 <= sq < idx && 0 <= dir < 8 ==> (#[trigger] squares_to_edge@[sq]@[dir])
                        as int == edge_distance(sq, dir),
                forall|sq: int|
                    0 <= sq < idx ==> jump_list_matches(
                        (#[trigger] knight_jumps@[sq])@,
                        knight_targets(sq),
                    ),
        {
            let x: usize = idx % 8;
            let y: usize = idx / 8;
            let north: usize = y;
            let east: usize = 8 - x - 1;
            let south: usize = 8 - y - 1;
            let west: usize = x;
            let row: [usize; 8] = [
                north,
                east,
                south,
                west,
                smaller(north, west),
                smaller(north, east),
                smaller(south, west),
                smaller(south, east),
            ];
            squares_to_edge[idx] = row;
            let mut jumps: Vec<usize> = Vec::new();
            for i in 0..8usize
                invariant
                    idx < 64,
                    forall|dir: int|
                        0 <= dir < 8 ==> (#[trigger] row@[dir]) as int == edge_distance(
                            idx as int,
                            dir,
                        ),
                    jump_list_matches(jumps@, knight_targets_upto(idx as int, i as int)),
            {
                if row[i / 2] >= 2 - (i % 2) && row[(i / 2 + 1) % 4] >= 2 - ((i + 1) % 2) {
                    let offset: i32 = KNIGHT_OFFSETS[i];
                    jumps.push((idx as i32 + offset) as usize);
                }
            }
            knight_jumps.push(jumps);
        }
        (squares_to_edge, knight_jumps)
    }

    /// The empty board with White to move, every castling right held, no
    /// en passant target, and the counters at the start of a game.
    pub fn new() -> (board: ChessBoard)
        ensures
            board@ == (Position {
                layout: Seq::new(64, |sq: int| None),
                side_to_move: ChessColor::White,
                castle_short: Set::full(),
                castle_long: Set::full(),
                en_passant: None,
                halfmove_clock: 0,
                fullmove_number: 1,
            }),
    {
        let tables = ChessBoard::precompute_board_data();
        let board = ChessBoard {
            layout: [ChessPiece::empty(); 64],
            color_to_move: ChessColor::White,
            can_castle_long: ColorSet::both(),
            can_castle_short: ColorSet::both(),
            en_passant_target: None,
            halfmove_clock: 0,
            fullmove_number: 1,
            squares_to_edge: tables.0,
            knight_jumps: tables.1,
        };
        board
    }

    /// The view of every board is a well-formed position whose counters fit
    /// in 32 bits.
    pub proof fn lemma_view_wf(&self)
        ensures
            self@.wf(),
            self@.halfmove_clock <= u32::MAX,
            self@.fullmove_number <= u32::MAX,
    {
    }

    /// Loads a position from its six-field notation, for example
    /// `rnbqkbnr/pppppppp/8/8/8/8/PPPPPPPP/RNBQKBNR w KQkq - 0 1`.
    pub fn new_from_fen(fen: &str) -> (res: Result<ChessBoard, InvalidFENError>)
        ensures
            res is Ok <==> parse_fen(fen@) is Some,
            res matches Ok(board) ==> board@ == parse_fen(fen@).unwrap(),
    {
        let chars = chars_of(fen);
        let parts = split_fields(&chars);
        if parts.len() != 6 {
            return Err(InvalidFENError);
        }
        let ghost fields = texts(parts@);
        let placement_part = &parts[0];
        let active_color_part = &parts[1];
        let castling_part = &parts[2];
        let en_passant_part = &parts[3];
        let halfmove_part = &parts[4];
        let fullmove_part = &parts[5];

        let layout = match read_placement(placement_part) {
            Some(layout) => layout,
            None => {
                return Err(InvalidFENError);
            },
        };
        let color_to_move = match read_side(active_color_part) {
            Some(color) => color,
            None => {
                return Err(InvalidFENError);
            },
        };
        let (can_castle_short, can_castle_long) = read_castling(castling_part);
        let en_passant_target: Option<u16> = if en_passant_part.len() == 2 {
            square_of_letters(en_passant_part[0], en_passant_part[1])
        } else {
            None
        };
        let halfmove_clock = match read_counter(halfmove_part) {
            Some(number) => number,
            None => {
                return Err(InvalidFENError);
            },
        };
        let fullmove_number = match read_counter(fullmove_part) {
            Some(number) => number,
            None => {
                return Err(InvalidFENError);
            },
        };
        let tables = ChessBoard::precompute_board_data();
        let instance = ChessBoard {
            layout,
            color_to_move,
            can_castle_long,
            can_castle_short,
            en_passant_target,
            halfmove_clock,
            fullmove_number,
            squares_to_edge: tables.0,
            knight_jumps: tables.1,
        };
        Ok(instance)
    }

    /// Writes the position in the six-field notation, with one blank
    /// between fields.
    pub fn to_fen(&self) -> (text: String)
        ensures
            text@ == fen_text(self@),
    {
        proof {
            use_type_invariant(self);
        }
        let ghost p = self@;
        let mut text = String::new();
        for y in 0..8usize
            invariant
                p == self@,
                text@ == placement_text_upto(p.layout, y as int),
        {
            if y > 0 {
                push_char(&mut text, '/');
            }
            push_row(&mut text, &self.layout, y);
        }
        push_blank(&mut text);
        push_side(&mut text, self.color_to_move);
        push_blank(&mut text);
        push_castling(&mut text, self.can_castle_short, self.can_castle_long);
        push_blank(&mut text);
        push_en_passant(&mut text, self.en_passant_target);
        push_blank(&mut text);
        push_decimal(&mut text, self.halfmove_clock);
        push_blank(&mut text);
        push_decimal(&mut text, self.fullmove_number);
        text
    }

    /// What stands on square `idx`.
    pub fn piece_at(&self, idx: usize) -> (piece: ChessPiece)
        requires
            idx < 64,
        ensures
            piece@ == self@.layout[idx as int],
    {
        self.layout[idx]
    }

    /// The side whose turn it is.
    pub fn color_to_move(&self) -> (color: ChessColor)
        ensures
            color == self@.side_to_move,
    {
        self.color_to_move
    }

    /// Whether `color` may still castle towards the h-file.
    pub fn can_castle_short(&self, color: ChessColor) -> (b: bool)
        ensures
            b == self@.castle_short.contains(color),
    {
        self.can_castle_short.contains(color)
    }

    /// Whether `color` may still castle towards the a-file.
    pub fn can_castle_long(&self, color: ChessColor) -> (b: bool)
        ensures
            b == self@.castle_long.contains(color),
    {
        self.can_castle_long.contains(color)
    }

    /// The square that a pawn has just passed over with a double step.
    pub fn en_passant_target(&self) -> (target: Option<u16>)
        ensures
            target matches Some(t) ==> self@.en_passant == Some(t as int) && t < 64,
            target is None ==> self@.en_passant is None,
    {
        proof {
            use_type_invariant(self);
        }
        self.en_passant_target
    }

    /// Moves made since the last pawn move or capture.
    pub fn halfmove_clock(&self) -> (n: u32)
        ensures
            n as int == self@.halfmove_clock,
    {
        self.halfmove_clock
    }

    /// The number of the current full move.
    pub fn fullmove_number(&self) -> (n: u32)
        ensures
            n as int == self@.fullmove_number,
    {
        self.fullmove_number
    }

    /// The square reached from `start_pos` after `steps` steps in direction
    /// `dir`, where the edge is at least that far.
    fn ray_target(start_pos: u16, dir: usize, steps: usize) -> (end_pos: u16)
        requires
            start_pos < 64,
            dir < 8,
            1 <= steps <= edge_distance(start_pos as int, dir as int),
        ensures
            end_pos as int == ray_square(start_pos as int, dir as int, steps as int),
            end_pos < 64,
    {
        let offset: i32 = DIRECTION_OFFSETS[dir];
        proof {
            lemma_ray_on_board(start_pos as int, dir as int, steps as int);
        }
        (start_pos as i32 + steps as i32 * offset) as u16
    }

    /// Adds the moves of the king on `start_pos`.
    fn generate_king_moves(&self, moves: &mut Vec<ChessMove>, start_pos: u16)
        requires
            start_pos < 64,
        ensures
            move_views(final(moves)@) == move_views(old(moves)@) + king_moves(
                self@,
                start_pos as int,
            ),
    {
        proof {
            use_type_invariant(self);
        }
        let ghost base = move_views(moves@);
        let ghost p = self@;
        let ghost from = start_pos as int;
        for i in 0..8usize
            invariant
                start_pos < 64,
                from == start_pos as int,
                p == self@,
                edges_match(self.squares_to_edge@),
                move_views(moves@) == base + hop_moves(p, from, neighbours_upto(from, i as int)),
        {
            let squares_to_edge = self.squares_to_edge[start_pos as usize][i];
            if squares_to_edge >= 1 {
                let end_pos = ChessBoard::ray_target(start_pos, i, 1);
                proof {
                    lemma_hop_moves_push(p, from, neighbours_upto(from, i as int), end_pos as int);
                }
                if !self.layout[end_pos as usize].is_color(self.color_to_move) {
                    let chess_move = ChessMove::new(start_pos, end_pos, MoveFlags::empty());
                    proof {
                        lemma_move_views_push(moves@, chess_move);
                    }
                    moves.push(chess_move);
                }
            }
        }
        if self.can_castle_short.contains(self.color_to_move)
            && self.squares_to_edge[start_pos as usize][EAST] >= 3 {
            if self.layout[start_pos as usize + 1].is_empty() && self.layout[start_pos as usize
                + 2].is_empty() {
                let chess_move = ChessMove::new(start_pos, start_pos + 2, MoveFlags::CastleShort);
                proof {
                    lemma_move_views_push(moves@, chess_move);
                }
                moves.push(chess_move);
            }
        }
        if self.can_castle_long.contains(self.color_to_move)
            && self.squares_to_edge[start_pos as usize][WEST] >= 4 {
            if self.layout[start_pos as usize - 1].is_empty() && self.layout[start_pos as usize
                - 2].is_empty() && self.layout[start_pos as usize - 3].is_empty() {
                let chess_move = ChessMove::new(start_pos, start_pos - 2, MoveFlags::CastleLong);
                proof {
                    lemma_move_views_push(moves@, chess_move);
                }
                moves.push(chess_move);
            }
        }
    }

    /// Adds the moves of the knight on `start_pos`.
    fn generate_knight_moves(&self, moves: &mut Vec<ChessMove>, start_pos: u16)
        requires
            start_pos < 64,
        ensures
            move_views(final(moves)@) == move_views(old(moves)@) + knight_moves(
                self@,
                start_pos as int,
            ),
    {
        proof {
            use_type_invariant(self);
            lemma_knight_targets_on_board(start_pos as int, 8);
        }
        let ghost base = move_views(moves@);
        let ghost p = self@;
        let ghost from = start_pos as int;
        let ghost targets = knight_targets(from);
        let jumps = &self.knight_jumps[start_pos as usize];
        for j in 0..jumps.len()
            invariant
                start_pos < 64,
                from == start_pos as int,
                p == self@,
                jump_list_matches(jumps@, targets),
                forall|k: int| 0 <= k < targets.len() ==> on_board(#[trigger] targets[k]),
                move_views(moves@) == base + hop_moves(p, from, targets.take(j as int)),
        {
            let end_pos: usize = jumps[j];
            proof {
                assert(targets.take(j + 1) =~= targets.take(j as int).push(end_pos as int));
                lemma_hop_moves_push(p, from, targets.take(j as int), end_pos as int);
            }
            if !self.layout[end_pos].is_color(self.color_to_move) {
                let chess_move = ChessMove::new(start_pos, end_pos as u16, MoveFlags::empty());
                proof {
                    lemma_move_views_push(moves@, chess_move);
                }
                moves.push(chess_move);
            }
        }
        assert(targets.take(targets.len() as int) =~= targets);
    }

    /// Adds the moves of the sliding piece on `start_pos` along the
    /// directions from `start` up to, not including, `end`.
    fn generate_sliding_moves(
        &self,
        moves: &mut Vec<ChessMove>,
        start_pos: u16,
        start: usize,
        end: usize,
    )
        requires
            start_pos < 64,
            start <= end <= 8,
        ensures
            move_views(final(moves)@) == move_views(old(moves)@) + sliding_moves(
                self@,
                start_pos as int,
                start as int,
                end as int,
            ),
    {
        proof {
            use_type_invariant(self);
        }
        let ghost base = move_views(moves@);
        let ghost p = self@;
        let ghost from = start_pos as int;
        for direction_idx in start..end
            invariant
                start_pos < 64,
                start <= end <= 8,
                from == start_pos as int,
                p == self@,
                edges_match(self.squares_to_edge@),
                move_views(moves@) == base + sliding_moves(
                    p,
                    from,
                    start as int,
                    direction_idx as int,
                ),
        {
            let squares_to_edge = self.squares_to_edge[start_pos as usize][direction_idx];
            let ghost dir = direction_idx as int;
            let ghost ray_base = move_views(moves@);
            let ghost mut walked: Seq<MoveView> = Seq::empty();
            let mut num_squares: usize = 1;
            while num_squares <= squares_to_edge
                invariant_except_break
                    walked + ray_moves_from(p, from, dir, num_squares as int) == ray_moves(
                        p,
                        from,
                        dir,
                    ),
                invariant
                    start_pos < 64,
                    direction_idx < 8,
                    dir == direction_idx as int,
                    from == start_pos as int,
                    p == self@,
                    squares_to_edge as int == edge_distance(from, dir),
                    squares_to_edge <= 7,
                    1 <= num_squares <= squares_to_edge + 1,
                    move_views(moves@) == ray_base + walked,
                ensures
                    move_views(moves@) == ray_base + ray_moves(p, from, dir),
                decreases squares_to_edge + 1 - num_squares,
            {
                let end_pos = ChessBoard::ray_target(start_pos, direction_idx, num_squares);
                let square = self.layout[end_pos as usize];
                if square.is_color(self.color_to_move) {
                    break ;
                }
                let chess_move = ChessMove::new(start_pos, end_pos, MoveFlags::empty());
                proof {
                    lemma_move_views_push(moves@, chess_move);
                }
                moves.push(chess_move);
                proof {
                    walked = walked.push(chess_move@);
                }
                if !square.is_empty() {
                    break ;
                }
                num_squares += 1;
            }
        }
    }

    /// Adds the advances of the pawn on `start_pos`, which has at least one
    /// square ahead of it in direction `offset`.
    fn add_pawn_advances(&self, moves: &mut Vec<ChessMove>, start_pos: u16, offset: usize)
        requires
            start_pos < 64,
            offset < 8,
            edge_distance(start_pos as int, offset as int) >= 1,
        ensures
            move_views(final(moves)@) == move_views(old(moves)@) + pawn_advances(
                self@,
                start_pos as int,
                offset as int,
            ),
    {
        proof {
            use_type_invariant(self);
        }
        let end_pos = ChessBoard::ray_target(start_pos, offset, 1);
        if self.layout[end_pos as usize].is_empty() {
            let chess_move = ChessMove::new(start_pos, end_pos, MoveFlags::empty());
            moves.push(chess_move);
            if self.squares_to_edge[start_pos as usize][offset] == 6 {
                let end_pos_2 = ChessBoard::ray_target(start_pos, offset, 2);
                if self.layout[end_pos_2 as usize].is_empty() {
                    let chess_move = ChessMove::new(
                        start_pos,
                        end_pos_2,
                        MoveFlags::PawnTwoForward,
                    );
                    moves.push(chess_move);
                }
            }
        }
    }

    /// Adds the en passant capture of the pawn on `start_pos` towards the
    /// diagonal `dir`, if the target lies there.
    fn add_pawn_en_passant(&self, moves: &mut Vec<ChessMove>, start_pos: u16, dir: usize)
        requires
            start_pos < 64,
            dir < 8,
        ensures
            move_views(final(moves)@) == move_views(old(moves)@) + pawn_en_passant(
                self@,
                start_pos as int,
                dir as int,
            ),
    {
        proof {
            use_type_invariant(self);
        }
        if let Some(target) = self.en_passant_target {
            if self.squares_to_edge[start_pos as usize][dir] >= 1 {
                let end_pos = ChessBoard::ray_target(start_pos, dir, 1);
                if end_pos == target {
                    let chess_move = ChessMove::new(start_pos, end_pos, MoveFlags::EnPassant);
                    moves.push(chess_move);
                }
            }
        }
    }

    /// Adds the capture of the pawn on `start_pos` towards the diagonal
    /// `dir`, if a piece of the other side stands there.
    fn add_pawn_capture(&self, moves: &mut Vec<ChessMove>, start_pos: u16, dir: usize)
        requires
            start_pos < 64,
            dir < 8,
        ensures
            move_views(final(moves)@) == move_views(old(moves)@) + pawn_capture(
                self@,
                start_pos as int,
                dir as int,
            ),
    {
        proof {
            use_type_invariant(self);
        }
        if self.squares_to_edge[start_pos as usize][dir] >= 1 {
            let end_pos = ChessBoard::ray_target(start_pos, dir, 1);
            let square = self.layout[end_pos as usize];
            if !square.is_color(self.color_to_move) && !square.is_empty() {
                let chess_move = ChessMove::new(start_pos, end_pos, MoveFlags::empty());
                moves.push(chess_move);
            }
        }
    }

    /// Adds the moves of the pawn on `start_pos` that advances in direction
    /// `offset`, north or south.
    fn generate_pawn_moves(&self, moves: &mut Vec<ChessMove>, start_pos: u16, offset: usize)
        requires
            start_pos < 64,
            offset == NORTH || offset == SOUTH,
        ensures
            move_views(final(moves)@) == move_views(old(moves)@) + pawn_moves(
                self@,
                start_pos as int,
                offset as int,
            ),
    {
        proof {
            use_type_invariant(self);
        }
        let ghost base = move_views(moves@);
        let ghost p = self@;
        let ghost from = start_pos as int;
        let ghost ahead = offset as int;
        if self.squares_to_edge[start_pos as usize][offset] < 1 {
            return ;
        }
        self.add_pawn_advances(moves, start_pos, offset);
        self.add_pawn_en_passant(moves, start_pos, 4 + offset);
        self.add_pawn_en_passant(moves, start_pos, 5 + offset);
        self.add_pawn_capture(moves, start_pos, 4 + offset);
        self.add_pawn_capture(moves, start_pos, 5 + offset);
        proof {
            lemma_append_five(
                base,
                pawn_advances(p, from, ahead),
                pawn_en_passant(p, from, 4 + ahead),
                pawn_en_passant(p, from, 5 + ahead),
                pawn_capture(p, from, 4 + ahead),
                pawn_capture(p, from, 5 + ahead),
            );
        }
    }

    /// Lists the moves that the position offers to the side to move, square
    /// by square in index order. The moves are pseudo-legal: none is tested
    /// for leaving the mover's own king attacked.
    pub fn generate_legal_moves(&self) -> (moves: Vec<ChessMove>)
        ensures
            move_views(moves@) == generated_moves(self@),
    {
        let mut moves: Vec<ChessMove> = Vec::new();
        let ghost p = self@;
        for idx in 0..64usize
            invariant
                p == self@,
                move_views(moves@) == moves_upto(p, idx as int),
        {
            let square = self.layout[idx];
            if square.is_color(self.color_to_move) {
                let start_pos = idx as u16;
                match square.kind() {
                    Some(PieceKind::King) => self.generate_king_moves(&mut moves, start_pos),
                    Some(PieceKind::Queen) => self.generate_sliding_moves(
                        &mut moves,
                        start_pos,
                        0,
                        8,
                    ),
                    Some(PieceKind::Rook) => self.generate_sliding_moves(
                        &mut moves,
                        start_pos,
                        0,
                        4,
                    ),
                    Some(PieceKind::Bishop) => self.generate_sliding_moves(
                        &mut moves,
                        start_pos,
                        4,
                        8,
                    ),
                    Some(PieceKind::Knight) => self.generate_knight_moves(&mut moves, start_pos),
                    Some(PieceKind::Pawn) => self.generate_pawn_moves(
                        &mut moves,
                        start_pos,
                        self.color_to_move.get_idx() * 2,
                    ),
                    None => (),
                }
            }
        }
        moves
    }

    /// Whether the move meets what application asks of it.
    pub fn can_apply(&self, chess_move: &ChessMove) -> (b: bool)
        ensures
            b == applicable(self@, chess_move@),
    {
        proof {
            use_type_invariant(self);
        }
        let (start_sq, end_sq, flags) = chess_move.get_idx();
        let piece = self.layout[start_sq as usize];
        let captured_piece = self.layout[end_sq as usize];
        if piece.is_kind(PieceKind::King) {
            if flags == MoveFlags::CastleShort && self.squares_to_edge[start_sq as usize][EAST]
                < 3 {
                return false;
            }
            if flags == MoveFlags::CastleLong && self.squares_to_edge[start_sq as usize][WEST]
                < 4 {
                return false;
            }
        }
        if !piece.is_kind(PieceKind::Pawn) && captured_piece.is_empty() && self.halfmove_clock
            == u32::MAX {
            return false;
        }
        if self.color_to_move == ChessColor::Black && self.fullmove_number == u32::MAX {
            return false;
        }
        true
    }

    /// The squares after the rook of a castling king has gone to the king's
    /// other side.
    fn castle_rook(&self, chess_move: &ChessMove) -> (layout: [ChessPiece; 64])
        requires
            applicable(self@, chess_move@),
        ensures
            occupants(layout) == layout_after_castle(self@, chess_move@),
    {
        let (start_sq, _end_sq, flags) = chess_move.get_idx();
        let start_idx = start_sq as usize;
        let mut layout = self.layout;
        if layout[start_idx].is_kind(PieceKind::King) {
            if flags == MoveFlags::CastleLong {
                let rook_end_idx = start_idx - 1;
                let rook_start_idx = start_idx - 4;
                let rook = layout[rook_start_idx];
                layout[rook_end_idx] = rook;
                layout[rook_start_idx] = ChessPiece::empty();
            }
            if flags == MoveFlags::CastleShort {
                let rook_end_idx = start_idx + 1;
                let rook_start_idx = start_idx + 3;
                let rook = layout[rook_start_idx];
                layout[rook_end_idx] = rook;
                layout[rook_start_idx] = ChessPiece::empty();
            }
        }
        layout
    }

    /// The castling rights that the move leaves: those to castle short,
    /// then those to castle long.
    fn rights_after(&self, chess_move: &ChessMove) -> (rights: (ColorSet, ColorSet))
        ensures
            rights.0@ == castle_short_after(self@, chess_move@),
            rights.1@ == castle_long_after(self@, chess_move@),
    {
        let (start_sq, end_sq, _flags) = chess_move.get_idx();
        let start_idx = start_sq as usize;
        let end_idx = end_sq as usize;
        let piece = self.layout[start_idx];
        let captured_piece = self.layout[end_idx];
        let opposite_color = self.color_to_move.opposite();
        let mut can_castle_short = self.can_castle_short;
        let mut can_castle_long = self.can_castle_long;
        if piece.is_kind(PieceKind::King) {
            can_castle_long.remove(self.color_to_move);
            can_castle_short.remove(self.color_to_move);
        }
        if piece.is_kind(PieceKind::Rook) {
            if let Some(color) = piece.color() {
                if start_idx % 8 < 4 {
                    can_castle_long.remove(color);
                } else {
                    can_castle_short.remove(color);
                }
            }
        }
        if captured_piece.is_kind(PieceKind::Rook) {
            if end_idx % 8 < 4 {
                can_castle_long.remove(opposite_color);
            } else {
                can_castle_short.remove(opposite_color);
            }
        }
        (can_castle_short, can_castle_long)
    }

    /// Applies a move without testing that the position offers it: moves
    /// the piece, and with it the rook of a castling king; takes the pawn
    /// that an en passant capture passes; turns a pawn that reaches the
    /// first or last rank into a queen; and brings the castling rights, the
    /// en passant target, the counters and the side to move up to date.
    pub fn make_move_unchecked(&mut self, chess_move: &ChessMove)
        requires
            applicable(old(self)@, chess_move@),
        ensures
            final(self)@ == apply_move(old(self)@, chess_move@),
    {
        proof {
            use_type_invariant(&*self);
        }
        let (start_sq, end_sq, flags) = chess_move.get_idx();

        let start_idx = start_sq as usize;
        let end_idx = end_sq as usize;

        let mut piece = self.layout[start_idx];
        let captured_piece = self.layout[end_idx];

        let piece_is_pawn = piece.is_kind(PieceKind::Pawn);
        let color_to_move = self.color_to_move;

        let mut layout = self.castle_rook(chess_move);
        let (can_castle_short, can_castle_long) = self.rights_after(chess_move);

        if piece_is_pawn && (end_idx < 8 || end_idx > 55) {
            piece = ChessPiece::new(color_to_move, PieceKind::Queen);
        }
        if let Some(en_passant_idx) = self.en_passant_target {
            if flags == MoveFlags::EnPassant {
                let x = en_passant_idx % 8;
                let y = start_sq / 8;
                layout[(y * 8 + x) as usize] = ChessPiece::empty();
            }
        }
        let en_passant_target = if flags == MoveFlags::PawnTwoForward {
            if start_sq >= end_sq {
                Some(start_sq - (start_sq - end_sq) / 2)
            } else {
                Some(start_sq + (end_sq - start_sq) / 2)
            }
        } else {
            None
        };
        let halfmove_clock = if !piece_is_pawn && captured_piece.is_empty() {
            self.halfmove_clock + 1
        } else {
            0
        };

        layout[end_idx] = piece;
        layout[start_idx] = ChessPiece::empty();

        let fullmove_number = if color_to_move == ChessColor::Black {
            self.fullmove_number + 1
        } else {
            self.fullmove_number
        };

        self.layout = layout;
        self.can_castle_long = can_castle_long;
        self.can_castle_short = can_castle_short;
        self.en_passant_target = en_passant_target;
        self.halfmove_clock = halfmove_clock;
        self.fullmove_number = fullmove_number;
        self.color_to_move = color_to_move.opposite();
    }
}

} // verus!
