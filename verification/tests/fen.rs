use chess_core::chess_board::ChessBoard;
use chess_core::chess_color::ChessColor;
use chess_core::chess_piece::{ChessPiece, PieceKind};

const START: &str = "rnbqkbnr/pppppppp/8/8/8/8/PPPPPPPP/RNBQKBNR w KQkq - 0 1";

fn rows_of(board: &ChessBoard) -> Vec<String> {
    let mut rows = Vec::new();
    for y in 0..8 {
        let mut row = String::new();
        for x in 0..8 {
            let piece = board.piece_at(y * 8 + x);
            if piece.is_empty() {
                row.push('.');
            } else {
                row.push_str(&piece.to_notation());
            }
        }
        rows.push(row);
    }
    rows
}

#[test]
fn new_board_is_empty_with_white_to_move() {
    let board = ChessBoard::new();
    for idx in 0..64 {
        assert!(board.piece_at(idx).is_empty());
    }
    assert_eq!(board.color_to_move(), ChessColor::White);
    assert!(board.can_castle_short(ChessColor::White));
    assert!(board.can_castle_short(ChessColor::Black));
    assert!(board.can_castle_long(ChessColor::White));
    assert!(board.can_castle_long(ChessColor::Black));
    assert_eq!(board.en_passant_target(), None);
    assert_eq!(board.halfmove_clock(), 0);
    assert_eq!(board.fullmove_number(), 1);
}

#[test]
fn start_position_loads() {
    let board = ChessBoard::new_from_fen(START).unwrap();
    assert_eq!(
        rows_of(&board),
        vec![
            "rnbqkbnr", "pppppppp", "........", "........", "........", "........", "PPPPPPPP",
            "RNBQKBNR"
        ]
    );
    assert_eq!(board.color_to_move(), ChessColor::White);
    assert!(board.can_castle_short(ChessColor::White));
    assert!(board.can_castle_short(ChessColor::Black));
    assert!(board.can_castle_long(ChessColor::White));
    assert!(board.can_castle_long(ChessColor::Black));
    assert_eq!(board.en_passant_target(), None);
    assert_eq!(board.halfmove_clock(), 0);
    assert_eq!(board.fullmove_number(), 1);
    assert_eq!(board.piece_at(0), ChessPiece::new(ChessColor::Black, PieceKind::Rook));
    assert_eq!(board.piece_at(60), ChessPiece::new(ChessColor::White, PieceKind::King));
}

#[test]
fn every_field_is_read() {
    let board =
        ChessBoard::new_from_fen("r3k2r/8/8/3pP3/8/8/8/R3K2R b Kq d6 17 42").unwrap();
    assert_eq!(
        rows_of(&board),
        vec![
            "r...k..r", "........", "........", "...pP...", "........", "........", "........",
            "R...K..R"
        ]
    );
    assert_eq!(board.color_to_move(), ChessColor::Black);
    assert!(board.can_castle_short(ChessColor::White));
    assert!(!board.can_castle_short(ChessColor::Black));
    assert!(!board.can_castle_long(ChessColor::White));
    assert!(board.can_castle_long(ChessColor::Black));
    assert_eq!(board.en_passant_target(), Some(19));
    assert_eq!(board.halfmove_clock(), 17);
    assert_eq!(board.fullmove_number(), 42);
}

#[test]
fn fields_may_be_parted_by_any_white_space() {
    let board = ChessBoard::new_from_fen(
        "  8/8/8/8/8/8/8/R7\tw\n-\r\n-\u{a0}\u{2003}0\u{3000}1 \u{85}",
    )
    .unwrap();
    assert_eq!(board.piece_at(56), ChessPiece::new(ChessColor::White, PieceKind::Rook));
    assert_eq!(board.fullmove_number(), 1);
}

#[test]
fn white_space_is_what_the_standard_library_calls_white_space() {
    let mut code: u32 = 0;
    while code < 0x11_0000 {
        if let Some(c) = char::from_u32(code) {
            let text = format!("8/8/8/8/8/8/8/8{c}w{c}-{c}-{c}0{c}1");
            assert_eq!(
                ChessBoard::new_from_fen(&text).is_ok(),
                c.is_whitespace(),
                "code point {:x}",
                code
            );
        }
        code += if code < 0x3100 { 1 } else { 257 };
    }
}

#[test]
fn field_count_other_than_six_is_refused() {
    assert!(ChessBoard::new_from_fen("").is_err());
    assert!(ChessBoard::new_from_fen("   ").is_err());
    assert!(ChessBoard::new_from_fen("8/8/8/8/8/8/8/8 w - - 0").is_err());
    assert!(ChessBoard::new_from_fen("8/8/8/8/8/8/8/8 w - - 0 1 extra").is_err());
    assert!(ChessBoard::new_from_fen("8/8/8/8/8/8/8/8").is_err());
}

#[test]
fn unknown_placement_letter_is_refused() {
    assert!(ChessBoard::new_from_fen("8/8/8/8/8/8/8/X7 w - - 0 1").is_err());
    assert!(ChessBoard::new_from_fen("8/8/8/8/8/8/8/R7- w - - 0 1").is_err());
    assert!(ChessBoard::new_from_fen("8/8/8/8/8/8/8/\u{212a}7 w - - 0 1").is_err());
}

#[test]
fn piece_past_the_last_square_is_refused() {
    assert!(ChessBoard::new_from_fen("8/8/8/8/8/8/8/8/K w - - 0 1").is_err());
    assert!(ChessBoard::new_from_fen("8/8/8/8/8/8/8/8K w - - 0 1").is_err());
    assert!(ChessBoard::new_from_fen("99999999K w - - 0 1").is_err());
    assert!(ChessBoard::new_from_fen("8/8/8/8/8/8/8/7K w - - 0 1").is_ok());
    assert!(ChessBoard::new_from_fen("8/8/8/8/8/8/8/8/8/8/8 w - - 0 1").is_ok());
}

#[test]
fn short_and_long_rows_are_taken_as_they_come() {
    let board = ChessBoard::new_from_fen("k/K w - - 0 1").unwrap();
    assert_eq!(board.piece_at(0), ChessPiece::new(ChessColor::Black, PieceKind::King));
    assert_eq!(board.piece_at(8), ChessPiece::new(ChessColor::White, PieceKind::King));
    for idx in (1..8).chain(9..64) {
        assert!(board.piece_at(idx).is_empty());
    }
    let board = ChessBoard::new_from_fen("9Q0R w - - 0 1").unwrap();
    assert_eq!(board.piece_at(9), ChessPiece::new(ChessColor::White, PieceKind::Queen));
    assert_eq!(board.piece_at(10), ChessPiece::new(ChessColor::White, PieceKind::Rook));
}

#[test]
fn later_letter_overwrites_an_earlier_one() {
    let board = ChessBoard::new_from_fen("8/K/7/q w - - 0 1").unwrap();
    assert_eq!(board.piece_at(8), ChessPiece::new(ChessColor::White, PieceKind::King));
    assert_eq!(board.piece_at(24), ChessPiece::new(ChessColor::Black, PieceKind::Queen));
}

#[test]
fn side_to_move_must_be_w_or_b() {
    assert!(ChessBoard::new_from_fen("8/8/8/8/8/8/8/8 W - - 0 1").is_err());
    assert!(ChessBoard::new_from_fen("8/8/8/8/8/8/8/8 x - - 0 1").is_err());
    assert!(ChessBoard::new_from_fen("8/8/8/8/8/8/8/8 wb - - 0 1").is_err());
    assert!(ChessBoard::new_from_fen("8/8/8/8/8/8/8/8 - - - 0 1").is_err());
    let board = ChessBoard::new_from_fen("8/8/8/8/8/8/8/8 b - - 0 1").unwrap();
    assert_eq!(board.color_to_move(), ChessColor::Black);
}

#[test]
fn unknown_castling_letters_are_passed_over() {
    let board = ChessBoard::new_from_fen("8/8/8/8/8/8/8/8 w xK?q7R - 0 1").unwrap();
    assert!(board.can_castle_short(ChessColor::White));
    assert!(!board.can_castle_short(ChessColor::Black));
    assert!(!board.can_castle_long(ChessColor::White));
    assert!(board.can_castle_long(ChessColor::Black));
    let board = ChessBoard::new_from_fen("8/8/8/8/8/8/8/8 w - - 0 1").unwrap();
    assert!(!board.can_castle_short(ChessColor::White));
    assert!(!board.can_castle_short(ChessColor::Black));
    assert!(!board.can_castle_long(ChessColor::White));
    assert!(!board.can_castle_long(ChessColor::Black));
    let board = ChessBoard::new_from_fen("8/8/8/8/8/8/8/8 w QQkk - 0 1").unwrap();
    assert!(!board.can_castle_short(ChessColor::White));
    assert!(board.can_castle_short(ChessColor::Black));
    assert!(board.can_castle_long(ChessColor::White));
    assert!(!board.can_castle_long(ChessColor::Black));
}

#[test]
fn unreadable_en_passant_field_means_no_target() {
    for field in ["-", "e9", "z3", "e33", "x", "E3"] {
        let text = format!("8/8/8/8/8/8/8/8 w - {} 0 1", field);
        let board = ChessBoard::new_from_fen(&text).unwrap();
        assert_eq!(board.en_passant_target(), None);
    }
    let board = ChessBoard::new_from_fen("8/8/8/8/8/8/8/8 w - e3 0 1").unwrap();
    assert_eq!(board.en_passant_target(), Some(44));
    let board = ChessBoard::new_from_fen("8/8/8/8/8/8/8/8 w - a8 0 1").unwrap();
    assert_eq!(board.en_passant_target(), Some(0));
}

#[test]
fn counters_must_be_numbers() {
    assert!(ChessBoard::new_from_fen("8/8/8/8/8/8/8/8 w - - x 1").is_err());
    assert!(ChessBoard::new_from_fen("8/8/8/8/8/8/8/8 w - - 0 y").is_err());
    assert!(ChessBoard::new_from_fen("8/8/8/8/8/8/8/8 w - - -1 1").is_err());
    assert!(ChessBoard::new_from_fen("8/8/8/8/8/8/8/8 w - - 0 1.5").is_err());
    assert!(ChessBoard::new_from_fen("8/8/8/8/8/8/8/8 w - - 0 +").is_err());
    assert!(ChessBoard::new_from_fen("8/8/8/8/8/8/8/8 w - - 0 1_0").is_err());
    assert!(ChessBoard::new_from_fen("8/8/8/8/8/8/8/8 w - - ++1 1").is_err());
    assert!(ChessBoard::new_from_fen("8/8/8/8/8/8/8/8 w - - 1+ 1").is_err());
}

#[test]
fn counters_are_read_in_decimal() {
    let board = ChessBoard::new_from_fen("8/8/8/8/8/8/8/8 w - - 007 +120").unwrap();
    assert_eq!(board.halfmove_clock(), 7);
    assert_eq!(board.fullmove_number(), 120);
    let board = ChessBoard::new_from_fen("8/8/8/8/8/8/8/8 w - - 4294967295 0").unwrap();
    assert_eq!(board.halfmove_clock(), 4294967295);
    assert_eq!(board.fullmove_number(), 0);
    let board =
        ChessBoard::new_from_fen("8/8/8/8/8/8/8/8 w - - 0 000000000000000000000000012").unwrap();
    assert_eq!(board.fullmove_number(), 12);
}

#[test]
fn counters_past_32_bits_are_refused() {
    assert!(ChessBoard::new_from_fen("8/8/8/8/8/8/8/8 w - - 4294967296 1").is_err());
    assert!(ChessBoard::new_from_fen("8/8/8/8/8/8/8/8 w - - 0 99999999999999999999999").is_err());
    assert!(ChessBoard::new_from_fen("8/8/8/8/8/8/8/8 w - - 0 42949672950").is_err());
}

#[test]
fn counters_agree_with_the_standard_library() {
    for field in ["0", "1", "+1", "-0", "", "09", "4294967295", "4294967296", "12a", "+", "+-1"] {
        let text = format!("8/8/8/8/8/8/8/8 w - - 0 {}", field);
        let expected = field.parse::<u32>().ok();
        let loaded = ChessBoard::new_from_fen(&text).ok().map(|b| b.fullmove_number());
        if field.is_empty() {
            assert_eq!(loaded, None);
        } else {
            assert_eq!(loaded, expected, "field {:?}", field);
        }
    }
}

#[test]
fn start_position_is_written_as_it_was_read() {
    let board = ChessBoard::new_from_fen(START).unwrap();
    assert_eq!(board.to_fen(), START);
}

#[test]
fn empty_board_is_written_with_dashes() {
    assert_eq!(ChessBoard::new().to_fen(), "8/8/8/8/8/8/8/8 w KQkq - 0 1");
    let board = ChessBoard::new_from_fen("8/8/8/8/8/8/8/8 b - - 12 345").unwrap();
    assert_eq!(board.to_fen(), "8/8/8/8/8/8/8/8 b - - 12 345");
}

#[test]
fn runs_of_empty_squares_are_counted() {
    for text in [
        "r3k2r/8/8/3pP3/8/8/8/R3K2R b Kq d6 17 42",
        "r1bqkb1r/pppp1ppp/2n2n2/4p3/2B1P3/5N2/PPPP1PPP/RNBQK2R w KQkq - 4 4",
        "7k/1p1p1p1p/p1p1p1p1/8/1P6/6P1/P7/K7 w - a3 0 4294967295",
        "k7/8/8/8/8/8/8/7K w Qk h6 4294967295 10",
    ] {
        let board = ChessBoard::new_from_fen(text).unwrap();
        assert_eq!(board.to_fen(), text);
    }
}

#[test]
fn writing_tidies_an_untidy_text() {
    let board = ChessBoard::new_from_fen("\tk/K   b   qqKx   e9  +007 010 ").unwrap();
    assert_eq!(board.to_fen(), "k7/K7/8/8/8/8/8/8 b Kq - 7 10");
    let board = ChessBoard::new_from_fen("44/1111p111/9Q w QKqk - 0 1").unwrap();
    assert_eq!(board.to_fen(), "8/4p3/8/1Q6/8/8/8/8 w KQkq - 0 1");
}

#[test]
fn written_text_reads_back_as_the_same_position() {
    let mut board = ChessBoard::new_from_fen(START).unwrap();
    for _ in 0..40 {
        let moves = board.generate_legal_moves();
        if moves.is_empty() {
            break;
        }
        let chosen = &moves[(board.halfmove_clock() as usize * 7 + moves.len() / 2) % moves.len()];
        assert!(board.can_apply(chosen));
        board.make_move_unchecked(chosen);
        let text = board.to_fen();
        let again = ChessBoard::new_from_fen(&text).unwrap();
        assert_eq!(again.to_fen(), text);
        assert_eq!(rows_of(&again), rows_of(&board));
        assert_eq!(again.color_to_move(), board.color_to_move());
        assert_eq!(again.en_passant_target(), board.en_passant_target());
        assert_eq!(again.halfmove_clock(), board.halfmove_clock());
        assert_eq!(again.fullmove_number(), board.fullmove_number());
        for color in [ChessColor::White, ChessColor::Black] {
            assert_eq!(again.can_castle_short(color), board.can_castle_short(color));
            assert_eq!(again.can_castle_long(color), board.can_castle_long(color));
        }
    }
}

#[test]
fn errors_say_what_went_wrong() {
    let error = ChessBoard::new_from_fen("nothing").unwrap_err();
    assert_eq!(error.message(), "The FEN provided is invalid");
    let error = ChessPiece::new_from_notation("?").unwrap_err();
    assert_eq!(error.message(), "The Notation provided is invalid");
    let error = chess_core::chess_coordinate::notation_to_idx("z9").unwrap_err();
    assert_eq!(error.message(), "The Notation provided is invalid");
}
