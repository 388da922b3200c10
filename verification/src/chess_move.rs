//! A move, packed into sixteen bits: six for the square it leaves, six for
//! the square it reaches and four for its tag.

use vstd::prelude::*;

verus! {

/// What is special about a move.
#[derive(Clone, Copy, PartialEq, Eq, Structural, Debug, Hash)]
pub enum MoveFlags {
    /// Nothing: an ordinary step or capture.
    Plain,
    /// A pawn takes the pawn that has just passed it.
    EnPassant,
    /// The king castles towards the h-file.
    CastleShort,
    /// The king castles towards the a-file.
    CastleLong,
    PromoteQueen,
    PromoteRook,
    PromoteBishop,
    PromoteKnight,
    /// A pawn advances two squares from its first rank.
    PawnTwoForward,
}

impl MoveFlags {
    /// The number that stands for the tag in a packed move.
    pub open spec fn code(self) -> u16 {
        match self {
            MoveFlags::Plain => 0,
            MoveFlags::EnPassant => 1,
            MoveFlags::CastleShort => 2,
            MoveFlags::CastleLong => 3,
            MoveFlags::PromoteQueen => 4,
            MoveFlags::PromoteRook => 5,
            MoveFlags::PromoteBishop => 6,
            MoveFlags::PromoteKnight => 7,
            MoveFlags::PawnTwoForward => 8,
        }
    }

    /// The tag that a number stands for; numbers above 8 stand for none and
    /// read as `Plain`.
    pub open spec fn of_code(code: u16) -> MoveFlags {
        if code == 1 {
            MoveFlags::EnPassant
        } else if code == 2 {
            MoveFlags::CastleShort
        } else if code == 3 {
            MoveFlags::CastleLong
        } else if code == 4 {
            MoveFlags::PromoteQueen
        } else if code == 5 {
            MoveFlags::PromoteRook
        } else if code == 6 {
            MoveFlags::PromoteBishop
        } else if code == 7 {
            MoveFlags::PromoteKnight
        } else if code == 8 {
            MoveFlags::PawnTwoForward
        } else {
            MoveFlags::Plain
        }
    }

    /// The tag of an ordinary move.
    pub fn empty() -> (flags: MoveFlags)
        ensures
            flags == MoveFlags::Plain,
    {
        MoveFlags::Plain
    }

    /// The number that stands for the tag in a packed move.
    pub fn bits(&self) -> (bits: u16)
        ensures
            bits == self.code(),
            bits <= 8,
    {
        match self {
            MoveFlags::Plain => 0,
            MoveFlags::EnPassant => 1,
            MoveFlags::CastleShort => 2,
            MoveFlags::CastleLong => 3,
            MoveFlags::PromoteQueen => 4,
            MoveFlags::PromoteRook => 5,
            MoveFlags::PromoteBishop => 6,
            MoveFlags::PromoteKnight => 7,
            MoveFlags::PawnTwoForward => 8,
        }
    }
}

/// A move as a plain value: the square it leaves, the square it reaches and
/// its tag.
pub struct MoveView {
    pub from: int,
    pub to: int,
    pub flags: MoveFlags,
}

/// The sixteen bits that stand for a move between two squares of the board.
pub open spec fn pack(from: u16, to: u16, flags: MoveFlags) -> u16 {
    from | (to << 6) | (flags.code() << 12)
}

/// The move that sixteen bits stand for.
pub open spec fn unpack(data: u16) -> MoveView {
    MoveView {
        from: (data & 0x003f) as int,
        to: ((data & 0x0fc0) >> 6) as int,
        flags: MoveFlags::of_code((data & 0xf000) >> 12),
    }
}

/// Three fields that fit their widths are read back from the packed word.
proof fn lemma_pack_fields(from: u16, to: u16, code: u16)
    by (bit_vector)
    requires
        from < 64,
        to < 64,
        code <= 8,
    ensures
        (from | (to << 6) | (code << 12)) & 0x003f == from,
        ((from | (to << 6) | (code << 12)) & 0x0fc0) >> 6 == to,
        ((from | (to << 6) | (code << 12)) & 0xf000) >> 12 == code,
{
}

/// The fields of any word fit their widths, and the word is made of them.
proof fn lemma_unpack_fields(data: u16)
    by (bit_vector)
    ensures
        data & 0x003f < 64,
        (data & 0x0fc0) >> 6 < 64,
        (data & 0xf000) >> 12 < 16,
        (data & 0x003f) | (((data & 0x0fc0) >> 6) << 6) | (((data & 0xf000) >> 12) << 12) == data,
{
}

/// Taking a packed move apart gives back the three parts it was made of.
pub proof fn lemma_pack_round_trip(from: u16, to: u16, flags: MoveFlags)
    requires
        from < 64,
        to < 64,
    ensures
        unpack(pack(from, to, flags)) == (MoveView { from: from as int, to: to as int, flags }),
{
    lemma_pack_fields(from, to, flags.code());
}

/// One move.
#[derive(Clone, Copy, PartialEq, Eq, Structural, Debug, Hash)]
pub struct ChessMove {
    data: u16,
}

impl View for ChessMove {
    type V = MoveView;

    closed spec fn view(&self) -> MoveView {
        unpack(self.data)
    }
}

impl ChessMove {
    /// The four tag bits hold the number of a tag.
    #[verifier::type_invariant]
    spec fn tagged(self) -> bool {
        (self.data & 0xf000) >> 12 <= 8
    }

    /// The move from `start_pos` to `end_pos` with the given tag.
    pub fn new(start_pos: u16, end_pos: u16, flags: MoveFlags) -> (chess_move: ChessMove)
        requires
            start_pos < 64,
            end_pos < 64,
        ensures
            chess_move@ == (MoveView { from: start_pos as int, to: end_pos as int, flags }),
    {
        proof {
            lemma_pack_fields(start_pos, end_pos, flags.code());
        }
        ChessMove { data: start_pos | (end_pos << 6) | (flags.bits() << 12) }
    }

    /// The square the move leaves, the square it reaches, and its tag.
    pub fn get_idx(&self) -> (parts: (u16, u16, MoveFlags))
        ensures
            parts.0 as int == self@.from,
            parts.1 as int == self@.to,
            parts.2 == self@.flags,
            parts.0 < 64,
            parts.1 < 64,
    {
        proof {
            lemma_unpack_fields(self.data);
        }
        let start_idx: u16 = self.data & 0x003f;
        let end_idx: u16 = (self.data & 0x0fc0) >> 6;
        let code: u16 = (self.data & 0xf000) >> 12;
        let flags = match code {
            1 => MoveFlags::EnPassant,
            2 => MoveFlags::CastleShort,
            3 => MoveFlags::CastleLong,
            4 => MoveFlags::PromoteQueen,
            5 => MoveFlags::PromoteRook,
            6 => MoveFlags::PromoteBishop,
            7 => MoveFlags::PromoteKnight,
            8 => MoveFlags::PawnTwoForward,
            _ => MoveFlags::Plain,
        };
        (start_idx, end_idx, flags)
    }

    /// The packed word.
    pub fn data(&self) -> (data: u16)
        ensures
            self@.from < 64,
            self@.to < 64,
            data == pack(self@.from as u16, self@.to as u16, self@.flags),
    {
        proof {
            use_type_invariant(self);
            lemma_unpack_fields(self.data);
        }
        self.data
    }
}

/// The moves that a list of packed moves stands for.
pub open spec fn move_views(moves: Seq<ChessMove>) -> Seq<MoveView> {
    moves.map_values(|m: ChessMove| m@)
}

/// Adding a packed move to a list adds the move it stands for.
pub proof fn lemma_move_views_push(moves: Seq<ChessMove>, m: ChessMove)
    ensures
        move_views(moves.push(m)) == move_views(moves).push(m@),
{
}

} // verus!
