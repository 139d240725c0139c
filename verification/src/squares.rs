//! Sets of squares, kept in order of row and then column.

use std::collections::BTreeSet;
use vstd::prelude::*;

verus! {

broadcast use vstd::laws_cmp::group_laws_cmp;

/// Adds a square to a set.
pub fn mark(squares: &mut BTreeSet<(usize, usize)>, square: (usize, usize))
    ensures
        final(squares)@ == old(squares)@.insert(square),
{
    squares.insert(square);
}

/// Whether a square is in a set.
pub fn is_marked(squares: &BTreeSet<(usize, usize)>, square: (usize, usize)) -> (b: bool)
    ensures
        b == squares@.contains(square),
{
    squares.contains(&square)
}

} // verus!
