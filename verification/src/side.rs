use vstd::prelude::*;
use crate::piece::Piece;

verus! {

/// One of the two players. Red moves toward increasing `y`; Blue moves
/// toward decreasing `y`.
#[derive(Debug, Clone, Copy, PartialEq, Eq, Structural)]
pub enum Side {
    Red,
    Blue,
}

impl Side {
    /// The cell content holds a piece that belongs to this side.
    pub open spec fn spec_piece_is_friendly(self, piece: Option<Piece>) -> bool {
        match piece {
            None => false,
            Some(p) => p.side == self,
        }
    }

    /// The cell content holds a piece of the opposing side.
    pub open spec fn spec_piece_is_hostile(self, piece: Option<Piece>) -> bool {
        match piece {
            None => false,
            Some(p) => p.side != self,
        }
    }

    pub fn piece_is_friendly(&self, piece: &Option<Piece>) -> (r: bool)
        ensures
            r == self.spec_piece_is_friendly(*piece),
    {
        match piece {
            None => false,
            Some(x) => x.side == *self,
        }
    }

    pub fn piece_is_hostile(&self, piece: &Option<Piece>) -> (r: bool)
        ensures
            r == self.spec_piece_is_hostile(*piece),
    {
        match piece {
            None => false,
            Some(x) => x.side != *self,
        }
    }
}

} // verus!
