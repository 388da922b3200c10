use chess_core::chess_board::ChessBoard;
use chess_core::chess_color::ChessColor;
use chess_core::chess_coordinate::notation_to_idx;
use chess_core::chess_move::{ChessMove, MoveFlags};

const START: &str = "rnbqkbnr/pppppppp/8/8/8/8/PPPPPPPP/RNBQKBNR w KQkq - 0 1";

fn sq(name: &str) -> u16 {
    notation_to_idx(name).unwrap()
}

fn moves_of(fen: &str) -> Vec<(u16, u16, MoveFlags)> {
    let board = ChessBoard::new_from_fen(fen).unwrap();
    board.generate_legal_moves().iter().map(|m| m.get_idx()).collect()
}

fn plain(from: &str, to: &str) -> (u16, u16, MoveFlags) {
    (sq(from), sq(to), MoveFlags::Plain)
}

fn targets_from(moves: &[(u16, u16, MoveFlags)], from: &str) -> Vec<u16> {
    let mut targets: Vec<u16> =
        moves.iter().filter(|m| m.0 == sq(from)).map(|m| m.1).collect();
    targets.sort();
    targets
}

fn squares(names: &[&str]) -> Vec<u16> {
    let mut all: Vec<u16> = names.iter().map(|n| sq(n)).collect();
    all.sort();
    all
}

#[test]
fn start_position_offers_twenty_moves() {
    let board = ChessBoard::new_from_fen(START).unwrap();
    let moves = board.generate_legal_moves();
    assert_eq!(moves.len(), 20);
}

#[test]
fn start_position_moves_come_in_square_order() {
    let moves = moves_of(START);
    let mut expected = Vec::new();
    for file in "abcdefgh".chars() {
        let from = format!("{}2", file);
        expected.push(plain(&from, &format!("{}3", file)));
        expected.push((sq(&from), sq(&format!("{}4", file)), MoveFlags::PawnTwoForward));
    }
    expected.push(plain("b1", "c3"));
    expected.push(plain("b1", "a3"));
    expected.push(plain("g1", "h3"));
    expected.push(plain("g1", "f3"));
    assert_eq!(moves, expected);
}

#[test]
fn black_to_move_from_the_start_has_twenty_moves() {
    let moves = moves_of("rnbqkbnr/pppppppp/8/8/8/8/PPPPPPPP/RNBQKBNR b KQkq - 0 1");
    assert_eq!(moves.len(), 20);
    assert!(moves.contains(&(sq("e7"), sq("e5"), MoveFlags::PawnTwoForward)));
    assert!(moves.contains(&plain("g8", "f6")));
}

#[test]
fn lone_rook_in_the_corner_has_fourteen_moves() {
    let board = ChessBoard::new_from_fen("8/8/8/8/8/8/8/R7 w - - 0 1").unwrap();
    let moves = board.generate_legal_moves();
    assert_eq!(moves.len(), 14);
    let from = sq("a1");
    let mut along_file = 0;
    let mut along_rank = 0;
    for chess_move in &moves {
        let (start, end, flags) = chess_move.get_idx();
        assert_eq!(start, from);
        assert_eq!(flags, MoveFlags::Plain);
        if end % 8 == 0 {
            along_file += 1;
        } else {
            assert_eq!(end / 8, 7);
            along_rank += 1;
        }
    }
    assert_eq!(along_file, 7);
    assert_eq!(along_rank, 7);
}

#[test]
fn rook_walks_north_then_east() {
    let moves = moves_of("8/8/8/8/8/8/8/R7 w - - 0 1");
    let mut expected = Vec::new();
    for rank in 2..=8 {
        expected.push(plain("a1", &format!("a{}", rank)));
    }
    for file in "bcdefgh".chars() {
        expected.push(plain("a1", &format!("{}1", file)));
    }
    assert_eq!(moves, expected);
}

#[test]
fn empty_board_offers_nothing() {
    assert_eq!(moves_of("8/8/8/8/8/8/8/8 w - - 0 1").len(), 0);
    assert_eq!(ChessBoard::new().generate_legal_moves().len(), 0);
}

#[test]
fn only_the_side_to_move_gets_moves() {
    let moves = moves_of("8/8/8/3r4/8/8/8/R7 b - - 0 1");
    assert_eq!(moves.len(), 14);
    assert!(moves.iter().all(|m| m.0 == sq("d5")));
}

#[test]
fn sliding_piece_stops_before_its_own_and_on_the_other_side() {
    let moves = moves_of("8/8/8/8/p7/8/8/R2N4 w - - 0 1");
    assert_eq!(targets_from(&moves, "a1"), squares(&["a2", "a3", "a4", "b1", "c1"]));
}

#[test]
fn bishop_walks_the_diagonals() {
    let moves = moves_of("8/8/8/8/3B4/8/8/8 w - - 0 1");
    assert_eq!(
        targets_from(&moves, "d4"),
        squares(&[
            "c5", "b6", "a7", "e5", "f6", "g7", "h8", "c3", "b2", "a1", "e3", "f2", "g1"
        ])
    );
}

#[test]
fn queen_in_the_middle_has_twenty_seven_moves() {
    let moves = moves_of("8/8/8/8/3Q4/8/8/8 w - - 0 1");
    assert_eq!(moves.len(), 27);
}

#[test]
fn knight_jumps_stay_on_the_board() {
    let moves = moves_of("8/8/8/8/8/8/8/N7 w - - 0 1");
    assert_eq!(targets_from(&moves, "a1"), squares(&["b3", "c2"]));
    let moves = moves_of("7N/8/8/8/8/8/8/8 w - - 0 1");
    assert_eq!(targets_from(&moves, "h8"), squares(&["g6", "f7"]));
    let moves = moves_of("8/8/8/8/3N4/8/8/8 w - - 0 1");
    assert_eq!(
        targets_from(&moves, "d4"),
        squares(&["e6", "f5", "f3", "e2", "c2", "b3", "b5", "c6"])
    );
}

#[test]
fn knight_jumps_come_in_their_order() {
    let moves = moves_of("8/8/8/8/3N4/8/8/8 w - - 0 1");
    let expected: Vec<(u16, u16, MoveFlags)> = ["e6", "f5", "f3", "e2", "c2", "b3", "b5", "c6"]
        .iter()
        .map(|to| plain("d4", to))
        .collect();
    assert_eq!(moves, expected);
}

#[test]
fn knight_and_sliders_never_land_on_their_own_side() {
    for fen in [
        START,
        "r1bqkb1r/pppp1ppp/2n2n2/4p3/2B1P3/5N2/PPPP1PPP/RNBQK2R w KQkq - 4 4",
        "r1bqkb1r/pppp1ppp/2n2n2/4p3/2B1P3/5N2/PPPP1PPP/RNBQK2R b KQkq - 4 4",
        "8/8/2N1N3/1NQRBN2/2NBRN2/1N3N2/8/8 w - - 0 1",
    ] {
        let board = ChessBoard::new_from_fen(fen).unwrap();
        let mover = board.color_to_move();
        for chess_move in board.generate_legal_moves() {
            let (start, end, _) = chess_move.get_idx();
            assert!(board.piece_at(start as usize).is_color(mover));
            assert!(!board.piece_at(end as usize).is_color(mover));
        }
    }
}

#[test]
fn king_steps_to_every_neighbour() {
    let moves = moves_of("8/8/8/8/3K4/8/8/8 w - - 0 1");
    let expected: Vec<(u16, u16, MoveFlags)> = ["d5", "e4", "d3", "c4", "c5", "e5", "c3", "e3"]
        .iter()
        .map(|to| plain("d4", to))
        .collect();
    assert_eq!(moves, expected);
    let moves = moves_of("8/8/8/8/8/8/8/K7 w - - 0 1");
    assert_eq!(targets_from(&moves, "a1"), squares(&["a2", "b1", "b2"]));
}

#[test]
fn king_may_capture_but_not_its_own() {
    let moves = moves_of("8/8/8/2pP4/3K4/8/8/8 w - - 0 1");
    let targets = targets_from(&moves, "d4");
    assert!(targets.contains(&sq("c5")));
    assert!(!targets.contains(&sq("d5")));
}

#[test]
fn castling_is_offered_with_rights_and_empty_squares() {
    let moves = moves_of("r3k2r/8/8/8/8/8/8/R3K2R w KQkq - 0 1");
    assert!(moves.contains(&(sq("e1"), sq("g1"), MoveFlags::CastleShort)));
    assert!(moves.contains(&(sq("e1"), sq("c1"), MoveFlags::CastleLong)));
    let moves = moves_of("r3k2r/8/8/8/8/8/8/R3K2R b KQkq - 0 1");
    assert!(moves.contains(&(sq("e8"), sq("g8"), MoveFlags::CastleShort)));
    assert!(moves.contains(&(sq("e8"), sq("c8"), MoveFlags::CastleLong)));
}

#[test]
fn castling_is_not_offered_without_the_right() {
    let moves = moves_of("r3k2r/8/8/8/8/8/8/R3K2R w kq - 0 1");
    assert!(moves.iter().all(|m| m.2 == MoveFlags::Plain));
    let moves = moves_of("r3k2r/8/8/8/8/8/8/R3K2R w Qkq - 0 1");
    assert!(!moves.iter().any(|m| m.2 == MoveFlags::CastleShort));
    assert!(moves.iter().any(|m| m.2 == MoveFlags::CastleLong));
    let moves = moves_of("r3k2r/8/8/8/8/8/8/R3K2R b KQ - 0 1");
    assert!(moves.iter().all(|m| m.2 == MoveFlags::Plain));
}

#[test]
fn castling_is_not_offered_across_a_piece() {
    let moves = moves_of("r3k2r/8/8/8/8/8/8/R3KB1R w KQkq - 0 1");
    assert!(!moves.iter().any(|m| m.2 == MoveFlags::CastleShort));
    assert!(moves.iter().any(|m| m.2 == MoveFlags::CastleLong));
    let moves = moves_of("r3k2r/8/8/8/8/8/8/R3K1nR w KQkq - 0 1");
    assert!(!moves.iter().any(|m| m.2 == MoveFlags::CastleShort));
    let moves = moves_of("r3k2r/8/8/8/8/8/8/Rn2K2R w KQkq - 0 1");
    assert!(!moves.iter().any(|m| m.2 == MoveFlags::CastleLong));
    assert!(moves.iter().any(|m| m.2 == MoveFlags::CastleShort));
    let moves = moves_of(START);
    assert!(moves.iter().all(|m| m.2 != MoveFlags::CastleShort && m.2 != MoveFlags::CastleLong));
}

#[test]
fn castling_is_not_offered_without_room_for_the_rook() {
    let moves = moves_of("8/8/8/8/8/8/8/7K w K - 0 1");
    assert!(moves.iter().all(|m| m.2 == MoveFlags::Plain));
    let moves = moves_of("8/8/8/8/8/8/8/5K2 w K - 0 1");
    assert!(moves.iter().all(|m| m.2 == MoveFlags::Plain));
    let moves = moves_of("8/8/8/8/8/8/8/3K4 w Q - 0 1");
    assert!(moves.iter().all(|m| m.2 == MoveFlags::Plain));
    let moves = moves_of("8/8/8/8/8/8/7K/8 w K - 0 1");
    assert!(moves.iter().all(|m| m.2 == MoveFlags::Plain));
    let moves = moves_of("K7/8/8/8/8/8/8/8 w Q - 0 1");
    assert!(moves.iter().all(|m| m.2 == MoveFlags::Plain));
}

#[test]
fn castling_looks_at_rights_and_squares_only() {
    let moves = moves_of("8/8/8/8/8/8/7K/8 w KQ - 0 1");
    let special: Vec<&(u16, u16, MoveFlags)> =
        moves.iter().filter(|m| m.2 != MoveFlags::Plain).collect();
    assert_eq!(special, vec![&(sq("h2"), sq("f2"), MoveFlags::CastleLong)]);
    let moves = moves_of("8/8/8/8/4K3/8/8/8 w KQ - 0 1");
    let special: Vec<&(u16, u16, MoveFlags)> =
        moves.iter().filter(|m| m.2 != MoveFlags::Plain).collect();
    assert_eq!(
        special,
        vec![
            &(sq("e4"), sq("g4"), MoveFlags::CastleShort),
            &(sq("e4"), sq("c4"), MoveFlags::CastleLong)
        ]
    );
}

#[test]
fn pawn_advances_one_or_two_from_its_first_rank() {
    let moves = moves_of("8/8/8/8/8/8/4P3/8 w - - 0 1");
    assert_eq!(
        moves,
        vec![plain("e2", "e3"), (sq("e2"), sq("e4"), MoveFlags::PawnTwoForward)]
    );
    let moves = moves_of("8/4p3/8/8/8/8/8/8 b - - 0 1");
    assert_eq!(
        moves,
        vec![plain("e7", "e6"), (sq("e7"), sq("e5"), MoveFlags::PawnTwoForward)]
    );
    let moves = moves_of("8/8/8/8/8/4P3/8/8 w - - 0 1");
    assert_eq!(moves, vec![plain("e3", "e4")]);
}

#[test]
fn blocked_pawn_does_not_advance() {
    assert_eq!(moves_of("8/8/8/8/8/4n3/4P3/8 w - - 0 1").len(), 0);
    assert_eq!(moves_of("8/8/8/8/4n3/8/4P3/8 w - - 0 1"), vec![plain("e2", "e3")]);
    assert_eq!(moves_of("8/8/8/8/8/4N3/4P3/8 b - - 0 1").len(), 0);
}

#[test]
fn pawn_on_the_last_rank_has_no_moves() {
    assert_eq!(moves_of("4P3/8/8/8/8/8/8/8 w - - 0 1").len(), 0);
    assert_eq!(moves_of("8/8/8/8/8/8/8/4p3 b - - 0 1").len(), 0);
}

#[test]
fn pawn_captures_on_the_diagonals_only() {
    let moves = moves_of("8/8/8/8/8/3ppp2/4P3/8 w - - 0 1");
    assert_eq!(moves, vec![plain("e2", "d3"), plain("e2", "f3")]);
    let moves = moves_of("8/8/8/8/8/3P1P2/4P3/8 w - - 0 1");
    assert_eq!(targets_from(&moves, "e2"), squares(&["e3", "e4"]));
    let moves = moves_of("8/8/8/8/8/8/p7/1P6 b - - 0 1");
    assert_eq!(moves, vec![plain("a2", "a1"), plain("a2", "b1")]);
}

#[test]
fn pawn_on_the_edge_does_not_capture_around_it() {
    let moves = moves_of("8/8/8/8/8/7p/P7/8 w - - 0 1");
    assert_eq!(targets_from(&moves, "a2"), squares(&["a3", "a4"]));
    let moves = moves_of("8/8/8/8/p7/7P/8/8 w - - 0 1");
    assert_eq!(targets_from(&moves, "h3"), squares(&["h4"]));
}

#[test]
fn en_passant_capture_is_offered_onto_the_target() {
    let moves = moves_of("8/8/8/8/3pP3/8/8/8 b - e3 0 1");
    assert_eq!(moves, vec![plain("d4", "d3"), (sq("d4"), sq("e3"), MoveFlags::EnPassant)]);
    let moves = moves_of("8/8/8/8/4Pp2/8/8/8 b - e3 0 1");
    assert_eq!(moves, vec![plain("f4", "f3"), (sq("f4"), sq("e3"), MoveFlags::EnPassant)]);
    let moves = moves_of("8/8/8/3pP3/8/8/8/8 w - d6 0 1");
    assert_eq!(moves, vec![plain("e5", "e6"), (sq("e5"), sq("d6"), MoveFlags::EnPassant)]);
    let moves = moves_of("8/8/8/8/3pP3/8/8/8 b - - 0 1");
    assert_eq!(moves, vec![plain("d4", "d3")]);
    let moves = moves_of("8/8/8/8/2p1P3/8/8/8 b - e3 0 1");
    assert_eq!(moves, vec![plain("c4", "c3")]);
}

#[test]
fn generation_leaves_the_board_as_it_was() {
    let board = ChessBoard::new_from_fen(START).unwrap();
    let first = board.generate_legal_moves();
    let second = board.generate_legal_moves();
    assert_eq!(first, second);
    assert_eq!(board.color_to_move(), ChessColor::White);
    assert_eq!(first[0], ChessMove::new(sq("a2"), sq("a3"), MoveFlags::Plain));
}
