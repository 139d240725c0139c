//! What `==` means for pieces and for moves.

use crate::types::{Move, Piece};
use vstd::prelude::*;
use vstd::std_specs::cmp::PartialEqSpecImpl;

verus! {

impl PartialEq for Piece {
    fn eq(&self, other: &Piece) -> (b: bool) {
        self.color == other.color && self.piece_type == other.piece_type
    }
}

impl PartialEqSpecImpl for Piece {
    open spec fn obeys_eq_spec() -> bool {
        true
    }

    open spec fn eq_spec(&self, other: &Piece) -> bool {
        self.same_kind(*other)
    }
}

impl PartialEq for Move {
    fn eq(&self, other: &Move) -> (b: bool) {
        self.from.0 == other.from.0 && self.from.1 == other.from.1 && self.to.0 == other.to.0
            && self.to.1 == other.to.1 && self.castling == other.castling
    }
}

impl Eq for Move {

}

impl PartialEqSpecImpl for Move {
    open spec fn obeys_eq_spec() -> bool {
        true
    }

    open spec fn eq_spec(&self, other: &Move) -> bool {
        self.from.0 == other.from.0 && self.from.1 == other.from.1 && self.to.0 == other.to.0
            && self.to.1 == other.to.1 && self.castling == other.castling
    }
}

} // verus!
