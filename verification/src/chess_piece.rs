//! What stands on a square: nothing, or a piece of one side and one kind,
//! packed into a single byte.
//!
//! The two high bits of the byte give the side, the six low bits the kind;
//! the byte 0 is the empty square. The view of a `ChessPiece` is the
//! unpacked value, `None` or `Some((color, kind))`.

use vstd::prelude::*;
use vstd::string::*;
use crate::chess_color::ChessColor;
use crate::text::push_char;
use crate::InvalidNotationError;

verus! {

/// The six kinds of piece.
#[derive(Clone, Copy, PartialEq, Eq, Structural, Debug, Hash)]
pub enum PieceKind {
    King,
    Queen,
    Rook,
    Bishop,
    Knight,
    Pawn,
}

/// What a square holds, as a plain value.
pub type Occupant = Option<(ChessColor, PieceKind)>;

/// The bit that marks a side.
pub open spec fn color_bit(color: ChessColor) -> u8 {
    match color {
        ChessColor::White => 0x40,
        ChessColor::Black => 0x80,
    }
}

/// The bit that marks a kind.
pub open spec fn kind_bit(kind: PieceKind) -> u8 {
    match kind {
        PieceKind::King => 0x20,
        PieceKind::Queen => 0x10,
        PieceKind::Rook => 0x08,
        PieceKind::Bishop => 0x04,
        PieceKind::Knight => 0x02,
        PieceKind::Pawn => 0x01,
    }
}

/// The byte that stands for an occupant.
pub open spec fn code_of(occupant: Occupant) -> u8 {
    match occupant {
        None => 0,
        Some((color, kind)) => color_bit(color) | kind_bit(kind),
    }
}

/// The occupant that a byte stands for. A byte that is not the code of a
/// piece reads as the empty square.
pub open spec fn occupant_of(bits: u8) -> Occupant {
    let side = bits & 0xc0;
    let kind = bits & 0x3f;
    if side == 0x40 || side == 0x80 {
        let color = if side == 0x40 {
            ChessColor::White
        } else {
            ChessColor::Black
        };
        if kind == 0x20 {
            Some((color, PieceKind::King))
        } else if kind == 0x10 {
            Some((color, PieceKind::Queen))
        } else if kind == 0x08 {
            Some((color, PieceKind::Rook))
        } else if kind == 0x04 {
            Some((color, PieceKind::Bishop))
        } else if kind == 0x02 {
            Some((color, PieceKind::Knight))
        } else if kind == 0x01 {
            Some((color, PieceKind::Pawn))
        } else {
            None
        }
    } else {
        None
    }
}

/// The letter of a piece: upper case for White, lower case for Black.
pub open spec fn letter_of(color: ChessColor, kind: PieceKind) -> char {
    match (color, kind) {
        (ChessColor::White, PieceKind::King) => 'K',
        (ChessColor::White, PieceKind::Queen) => 'Q',
        (ChessColor::White, PieceKind::Rook) => 'R',
        (ChessColor::White, PieceKind::Bishop) => 'B',
        (ChessColor::White, PieceKind::Knight) => 'N',
        (ChessColor::White, PieceKind::Pawn) => 'P',
        (ChessColor::Black, PieceKind::King) => 'k',
        (ChessColor::Black, PieceKind::Queen) => 'q',
        (ChessColor::Black, PieceKind::Rook) => 'r',
        (ChessColor::Black, PieceKind::Bishop) => 'b',
        (ChessColor::Black, PieceKind::Knight) => 'n',
        (ChessColor::Black, PieceKind::Pawn) => 'p',
    }
}

/// The piece that a letter stands for, if it is one of the twelve letters.
pub open spec fn piece_of_letter(c: char) -> Occupant {
    if c == 'K' {
        Some((ChessColor::White, PieceKind::King))
    } else if c == 'Q' {
        Some((ChessColor::White, PieceKind::Queen))
    } else if c == 'R' {
        Some((ChessColor::White, PieceKind::Rook))
    } else if c == 'B' {
        Some((ChessColor::White, PieceKind::Bishop))
    } else if c == 'N' {
        Some((ChessColor::White, PieceKind::Knight))
    } else if c == 'P' {
        Some((ChessColor::White, PieceKind::Pawn))
    } else if c == 'k' {
        Some((ChessColor::Black, PieceKind::King))
    } else if c == 'q' {
        Some((ChessColor::Black, PieceKind::Queen))
    } else if c == 'r' {
        Some((ChessColor::Black, PieceKind::Rook))
    } else if c == 'b' {
        Some((ChessColor::Black, PieceKind::Bishop))
    } else if c == 'n' {
        Some((ChessColor::Black, PieceKind::Knight))
    } else if c == 'p' {
        Some((ChessColor::Black, PieceKind::Pawn))
    } else {
        None
    }
}

/// The piece that a one-letter code stands for. Text of any other length
/// stands for none.
pub open spec fn piece_of_notation(code: Seq<char>) -> Occupant {
    if code.len() == 1 {
        piece_of_letter(code[0])
    } else {
        None
    }
}

/// The text of an occupant: its letter, or nothing for the empty square.
pub open spec fn notation_of_occupant(occupant: Occupant) -> Seq<char> {
    match occupant {
        None => Seq::empty(),
        Some((color, kind)) => seq![letter_of(color, kind)],
    }
}

/// Packing a side bit and a kind bit keeps both readable.
proof fn lemma_pack_bits(side: u8, kind: u8)
    by (bit_vector)
    requires
        side == 0x40 || side == 0x80,
        kind == 0x20 || kind == 0x10 || kind == 0x08 || kind == 0x04 || kind == 0x02 || kind
            == 0x01,
    ensures
        (side | kind) & 0xc0 == side,
        (side | kind) & 0x3f == kind,
        side | kind != 0,
{
}

/// A byte is the union of its side bits and its kind bits, and the byte 0
/// has no side bits.
proof fn lemma_split_bits(bits: u8)
    by (bit_vector)
    ensures
        (bits & 0xc0) | (bits & 0x3f) == bits,
        0u8 & 0xc0 == 0,
{
}

/// Every occupant is read back from its code.
pub proof fn lemma_code_round_trip(occupant: Occupant)
    ensures
        occupant_of(code_of(occupant)) == occupant,
{
    match occupant {
        None => {
            lemma_split_bits(0);
        },
        Some((color, kind)) => {
            lemma_pack_bits(color_bit(color), kind_bit(kind));
        },
    }
}

/// Every piece is read back from its letter.
pub proof fn lemma_letter_round_trip(color: ChessColor, kind: PieceKind)
    ensures
        piece_of_letter(letter_of(color, kind)) == Some((color, kind)),
{
}

/// The content of one square.
#[derive(Clone, Copy, PartialEq, Eq, Structural, Debug, Hash)]
pub struct ChessPiece {
    bits: u8,
}

impl View for ChessPiece {
    type V = Occupant;

    closed spec fn view(&self) -> Occupant {
        occupant_of(self.bits)
    }
}

/// What stands on the squares of a board of packed pieces.
pub open spec fn occupants(layout: [ChessPiece; 64]) -> Seq<Occupant> {
    Seq::new(64, |sq: int| layout@[sq]@)
}

impl ChessPiece {
    /// The byte is the code of what it stands for.
    #[verifier::type_invariant]
    spec fn canonical(self) -> bool {
        code_of(occupant_of(self.bits)) == self.bits
    }

    /// The empty square.
    pub fn empty() -> (piece: ChessPiece)
        ensures
            piece@ is None,
    {
        proof {
            lemma_code_round_trip(None);
        }
        ChessPiece { bits: 0 }
    }

    /// A piece of the given side and kind.
    pub fn new(color: ChessColor, kind: PieceKind) -> (piece: ChessPiece)
        ensures
            piece@ == Some((color, kind)),
    {
        let side: u8 = match color {
            ChessColor::White => 0x40,
            ChessColor::Black => 0x80,
        };
        let low: u8 = match kind {
            PieceKind::King => 0x20,
            PieceKind::Queen => 0x10,
            PieceKind::Rook => 0x08,
            PieceKind::Bishop => 0x04,
            PieceKind::Knight => 0x02,
            PieceKind::Pawn => 0x01,
        };
        proof {
            lemma_code_round_trip(Some((color, kind)));
        }
        ChessPiece { bits: side | low }
    }

    /// The piece that a letter stands for.
    pub fn from_letter(c: char) -> (piece: Option<ChessPiece>)
        ensures
            piece is Some <==> piece_of_letter(c) is Some,
            piece matches Some(p) ==> p@ == piece_of_letter(c),
    {
        match c {
            'K' => Some(ChessPiece::new(ChessColor::White, PieceKind::King)),
            'Q' => Some(ChessPiece::new(ChessColor::White, PieceKind::Queen)),
            'R' => Some(ChessPiece::new(ChessColor::White, PieceKind::Rook)),
            'B' => Some(ChessPiece::new(ChessColor::White, PieceKind::Bishop)),
            'N' => Some(ChessPiece::new(ChessColor::White, PieceKind::Knight)),
            'P' => Some(ChessPiece::new(ChessColor::White, PieceKind::Pawn)),
            'k' => Some(ChessPiece::new(ChessColor::Black, PieceKind::King)),
            'q' => Some(ChessPiece::new(ChessColor::Black, PieceKind::Queen)),
            'r' => Some(ChessPiece::new(ChessColor::Black, PieceKind::Rook)),
            'b' => Some(ChessPiece::new(ChessColor::Black, PieceKind::Bishop)),
            'n' => Some(ChessPiece::new(ChessColor::Black, PieceKind::Knight)),
            'p' => Some(ChessPiece::new(ChessColor::Black, PieceKind::Pawn)),
            _ => None,
        }
    }

    /// Reads a one-letter piece code: `K Q R B N P` for White's king, queen,
    /// rook, bishop, knight and pawn, the same letters in lower case for
    /// Black's. Any other text is refused.
    pub fn new_from_notation(code: &str) -> (res: Result<ChessPiece, InvalidNotationError>)
        ensures
            res is Ok <==> piece_of_notation(code@) is Some,
            res matches Ok(piece) ==> piece@ == piece_of_notation(code@),
    {
        if code.unicode_len() != 1 {
            return Err(InvalidNotationError);
        }
        match ChessPiece::from_letter(code.get_char(0)) {
            Some(piece) => Ok(piece),
            None => Err(InvalidNotationError),
        }
    }

    /// The packed byte.
    pub fn bits(&self) -> (bits: u8)
        ensures
            bits == code_of(self@),
    {
        proof {
            use_type_invariant(self);
        }
        self.bits
    }

    /// Whether the square is empty.
    pub fn is_empty(&self) -> (b: bool)
        ensures
            b == (self@ is None),
    {
        proof {
            use_type_invariant(self);
            lemma_split_bits(self.bits);
        }
        self.bits == 0
    }

    /// Whether a piece of the given side stands here.
    pub fn is_color(&self, color: ChessColor) -> (b: bool)
        ensures
            b == (self@ matches Some((c, _)) && c == color),
    {
        proof {
            use_type_invariant(self);
            lemma_split_bits(self.bits);
        }
        let side: u8 = match color {
            ChessColor::White => 0x40,
            ChessColor::Black => 0x80,
        };
        self.bits & 0xc0 == side
    }

    /// Whether a piece of the given kind stands here.
    pub fn is_kind(&self, kind: PieceKind) -> (b: bool)
        ensures
            b == (self@ matches Some((_, k)) && k == kind),
    {
        proof {
            use_type_invariant(self);
            lemma_split_bits(self.bits);
        }
        let low: u8 = match kind {
            PieceKind::King => 0x20,
            PieceKind::Queen => 0x10,
            PieceKind::Rook => 0x08,
            PieceKind::Bishop => 0x04,
            PieceKind::Knight => 0x02,
            PieceKind::Pawn => 0x01,
        };
        self.bits != 0 && self.bits & 0x3f == low
    }

    /// The side of the piece that stands here.
    pub fn color(&self) -> (color: Option<ChessColor>)
        ensures
            color == match self@ {
                Some((c, _)) => Some(c),
                None => None,
            },
    {
        proof {
            use_type_invariant(self);
            lemma_split_bits(self.bits);
        }
        let side: u8 = self.bits & 0xc0;
        if self.bits == 0 {
            None
        } else if side == 0x40 {
            Some(ChessColor::White)
        } else {
            Some(ChessColor::Black)
        }
    }

    /// The kind of the piece that stands here.
    pub fn kind(&self) -> (kind: Option<PieceKind>)
        ensures
            kind == match self@ {
                Some((_, k)) => Some(k),
                None => None,
            },
    {
        proof {
            use_type_invariant(self);
            lemma_split_bits(self.bits);
        }
        let low: u8 = self.bits & 0x3f;
        if self.bits == 0 {
            None
        } else if low == 0x20 {
            Some(PieceKind::King)
        } else if low == 0x10 {
            Some(PieceKind::Queen)
        } else if low == 0x08 {
            Some(PieceKind::Rook)
        } else if low == 0x04 {
            Some(PieceKind::Bishop)
        } else if low == 0x02 {
            Some(PieceKind::Knight)
        } else {
            Some(PieceKind::Pawn)
        }
    }

    /// The one-letter code of the piece, upper case for White and lower case
    /// for Black; the empty square gives the empty string.
    pub fn to_notation(&self) -> (text: String)
        ensures
            text@ == notation_of_occupant(self@),
    {
        let mut text = String::new();
        let letter: char = match (self.color(), self.kind()) {
            (Some(ChessColor::White), Some(PieceKind::King)) => 'K',
            (Some(ChessColor::White), Some(PieceKind::Queen)) => 'Q',
            (Some(ChessColor::White), Some(PieceKind::Rook)) => 'R',
            (Some(ChessColor::White), Some(PieceKind::Bishop)) => 'B',
            (Some(ChessColor::White), Some(PieceKind::Knight)) => 'N',
            (Some(ChessColor::White), Some(PieceKind::Pawn)) => 'P',
            (Some(ChessColor::Black), Some(PieceKind::King)) => 'k',
            (Some(ChessColor::Black), Some(PieceKind::Queen)) => 'q',
            (Some(ChessColor::Black), Some(PieceKind::Rook)) => 'r',
            (Some(ChessColor::Black), Some(PieceKind::Bishop)) => 'b',
            (Some(ChessColor::Black), Some(PieceKind::Knight)) => 'n',
            (Some(ChessColor::Black), Some(PieceKind::Pawn)) => 'p',
            _ => {
                return text;
            },
        };
        push_char(&mut text, letter);
        text
    }
}

} // verus!
