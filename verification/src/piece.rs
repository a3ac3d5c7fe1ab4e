use vstd::prelude::*;
use crate::side::Side;

verus! {

/// A token on the board. A crowned piece may move along either diagonal
/// direction; an uncrowned one only toward the far edge of its side.
#[derive(Debug, Clone, Copy, PartialEq, Eq, Structural)]
pub struct Piece {
    pub side: Side,
    pub crowned: bool,
}

} // verus!
