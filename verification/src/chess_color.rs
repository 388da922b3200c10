//! The two sides of a game.

use vstd::prelude::*;

verus! {

/// One of the two sides.
#[derive(Clone, Copy, PartialEq, Eq, Structural, Debug, Hash)]
pub enum ChessColor {
    White,
    Black,
}

impl ChessColor {
    /// The side that is not `self`.
    pub open spec fn other(self) -> ChessColor {
        match self {
            ChessColor::White => ChessColor::Black,
            ChessColor::Black => ChessColor::White,
        }
    }

    /// The position of this side in a table with one entry per side:
    /// 0 for White, 1 for Black.
    pub open spec fn index(self) -> int {
        match self {
            ChessColor::White => 0,
            ChessColor::Black => 1,
        }
    }

    /// The position of this side in a table with one entry per side.
    pub fn get_idx(&self) -> (idx: usize)
        ensures
            idx as int == self.index(),
            idx < crate::CHESS_COLORS,
    {
        match self {
            ChessColor::White => 0,
            ChessColor::Black => 1,
        }
    }

    /// The opposing side.
    pub fn opposite(self) -> (c: ChessColor)
        ensures
            c == self.other(),
    {
        match self {
            ChessColor::White => ChessColor::Black,
            ChessColor::Black => ChessColor::White,
        }
    }
}

/// A set of sides.
#[derive(Clone, Copy, PartialEq, Eq, Structural, Debug, Hash)]
pub struct ColorSet {
    pub white: bool,
    pub black: bool,
}

impl View for ColorSet {
    type V = Set<ChessColor>;

    open spec fn view(&self) -> Set<ChessColor> {
        Set::new(
            |color: ChessColor|
                match color {
                    ChessColor::White => self.white,
                    ChessColor::Black => self.black,
                },
        )
    }
}

impl ColorSet {
    /// The set that holds neither side.
    pub fn none() -> (set: ColorSet)
        ensures
            set@ == Set::<ChessColor>::empty(),
    {
        let set = ColorSet { white: false, black: false };
        set
    }

    /// The set that holds both sides.
    pub fn both() -> (set: ColorSet)
        ensures
            set@ == Set::<ChessColor>::full(),
    {
        let set = ColorSet { white: true, black: true };
        set
    }

    /// Whether the set holds `color`.
    pub fn contains(&self, color: ChessColor) -> (b: bool)
        ensures
            b == self@.contains(color),
    {
        match color {
            ChessColor::White => self.white,
            ChessColor::Black => self.black,
        }
    }

    /// Adds `color` to the set.
    pub fn insert(&mut self, color: ChessColor)
        ensures
            final(self)@ == old(self)@.insert(color),
    {
        match color {
            ChessColor::White => {
                self.white = true;
            },
            ChessColor::Black => {
                self.black = true;
            },
        }
    }

    /// Takes `color` out of the set.
    pub fn remove(&mut self, color: ChessColor)
        ensures
            final(self)@ == old(self)@.remove(color),
    {
        match color {
            ChessColor::White => {
                self.white = false;
            },
            ChessColor::Black => {
                self.black = false;
            },
        }
    }
}

} // verus!
