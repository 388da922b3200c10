use chess_core::chess_move::{ChessMove, MoveFlags};

const FLAGS: [MoveFlags; 9] = [
    MoveFlags::Plain,
    MoveFlags::EnPassant,
    MoveFlags::CastleShort,
    MoveFlags::CastleLong,
    MoveFlags::PromoteQueen,
    MoveFlags::PromoteRook,
    MoveFlags::PromoteBishop,
    MoveFlags::PromoteKnight,
    MoveFlags::PawnTwoForward,
];

#[test]
fn every_move_round_trips() {
    for start in 0..64u16 {
        for end in 0..64u16 {
            for flags in FLAGS {
                let chess_move = ChessMove::new(start, end, flags);
                assert_eq!(chess_move.get_idx(), (start, end, flags));
            }
        }
    }
}

#[test]
fn moves_pack_into_their_words() {
    assert_eq!(ChessMove::new(0, 0, MoveFlags::Plain).data(), 0);
    assert_eq!(ChessMove::new(52, 36, MoveFlags::PawnTwoForward).data(), 52 | 36 << 6 | 8 << 12);
    assert_eq!(ChessMove::new(63, 63, MoveFlags::PromoteKnight).data(), 0x7fff);
    assert_eq!(ChessMove::new(60, 62, MoveFlags::CastleShort).data(), 60 | 62 << 6 | 2 << 12);
}

#[test]
fn tags_have_their_numbers() {
    for (number, flags) in FLAGS.iter().enumerate() {
        assert_eq!(flags.bits() as usize, number);
    }
    assert_eq!(MoveFlags::empty(), MoveFlags::Plain);
}

#[test]
fn different_parts_give_different_moves() {
    let a = ChessMove::new(12, 28, MoveFlags::Plain);
    assert_ne!(a, ChessMove::new(28, 12, MoveFlags::Plain));
    assert_ne!(a, ChessMove::new(12, 28, MoveFlags::PawnTwoForward));
    assert_eq!(a, ChessMove::new(12, 28, MoveFlags::Plain));
}
