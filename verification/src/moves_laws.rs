//! What holds of every generated move, and of the squares that a side
//! attacks.

use crate::legality::{attacked_from, attacked_squares, destinations};
use crate::moves::{
    bishop_directions, intrinsic_moves, king_offsets, knight_offsets, leaps, pawn_moves,
    queen_directions, ray, rook_directions, slides,
};
use crate::types::{on_board, step, Color, Move, Piece};
use vstd::prelude::*;

verus! {

/// Whether a move starts on `from`, ends on a square of the board and is no
/// castling.
pub open spec fn is_plain_move(m: Move, from: (int, int)) -> bool {
    &&& m.from == (from.0 as usize, from.1 as usize)
    &&& on_board(m.to.0 as int, m.to.1 as int)
    &&& !m.castling
}

/// Whether every move of a list is a plain move from `from`.
pub open spec fn all_plain(moves: Seq<Move>, from: (int, int)) -> bool {
    forall|i: int| 0 <= i < moves.len() ==> is_plain_move(#[trigger] moves[i], from)
}

/// A list joined from two lists of plain moves holds plain moves only.
pub proof fn lemma_all_plain_joined(a: Seq<Move>, b: Seq<Move>, from: (int, int))
    requires
        all_plain(a, from),
        all_plain(b, from),
    ensures
        all_plain(a + b, from),
{
    assert forall|i: int| 0 <= i < (a + b).len() implies is_plain_move(#[trigger] (a + b)[i], from) by {
        if i < a.len() {
            assert((a + b)[i] == a[i]);
        } else {
            assert((a + b)[i] == b[i - a.len()]);
        }
    }
}

/// The moves by offsets are plain moves.
pub proof fn lemma_leaps_plain(
    pieces: Map<(int, int), Piece>,
    from: (int, int),
    color: Color,
    offsets: Seq<(isize, isize)>,
    n: nat,
)
    requires
        on_board(from.0, from.1),
    ensures
        all_plain(leaps(pieces, from, color, offsets, n), from),
    decreases n,
{
    if n > 0 {
        lemma_leaps_plain(pieces, from, color, offsets, (n - 1) as nat);
    }
}

/// The moves along a ray are plain moves.
pub proof fn lemma_ray_plain(
    pieces: Map<(int, int), Piece>,
    from: (int, int),
    color: Color,
    direction: (isize, isize),
    at: (int, int),
    reach: nat,
)
    requires
        on_board(from.0, from.1),
    ensures
        all_plain(ray(pieces, from, color, direction, at, reach), from),
    decreases reach,
{
    let to = (at.0 + direction.0, at.1 + direction.1);
    if reach > 0 && on_board(to.0, to.1) && pieces.get(to) is None {
        lemma_ray_plain(pieces, from, color, direction, to, (reach - 1) as nat);
        lemma_all_plain_joined(
            seq![step(from, to)],
            ray(pieces, from, color, direction, to, (reach - 1) as nat),
            from,
        );
    }
}

/// The moves along the given directions are plain moves.
pub proof fn lemma_slides_plain(
    pieces: Map<(int, int), Piece>,
    from: (int, int),
    color: Color,
    directions: Seq<(isize, isize)>,
    n: nat,
)
    requires
        on_board(from.0, from.1),
    ensures
        all_plain(slides(pieces, from, color, directions, n), from),
    decreases n,
{
    if n > 0 {
        lemma_slides_plain(pieces, from, color, directions, (n - 1) as nat);
        lemma_ray_plain(pieces, from, color, directions[n - 1], from, 7);
        lemma_all_plain_joined(
            slides(pieces, from, color, directions, (n - 1) as nat),
            ray(pieces, from, color, directions[n - 1], from, 7),
            from,
        );
    }
}

/// Every move that is generated for the piece on `from` starts there, ends
/// on a square of the board, and is no castling.
pub proof fn lemma_moves_plain(pieces: Map<(int, int), Piece>, from: (int, int))
    requires
        on_board(from.0, from.1),
    ensures
        all_plain(intrinsic_moves(pieces, from), from),
{
    match pieces.get(from) {
        None => {},
        Some(p) => {
            lemma_leaps_plain(pieces, from, p.color, knight_offsets(), 8);
            lemma_leaps_plain(pieces, from, p.color, king_offsets(), 8);
            lemma_slides_plain(pieces, from, p.color, bishop_directions(), 4);
            lemma_slides_plain(pieces, from, p.color, rook_directions(), 4);
            lemma_slides_plain(pieces, from, p.color, queen_directions(), 8);
            assert(all_plain(pawn_moves(pieces, from), from));
        },
    }
}

/// Whether one of the first `n` moves of a list ends on `square`.
pub open spec fn some_move_to(moves: Seq<Move>, square: (usize, usize), n: nat) -> bool {
    exists|k: int| 0 <= k < n && (#[trigger] moves[k]).to == square
}

/// A square is among the destinations of the first `n` moves exactly where
/// one of them ends on it.
pub proof fn lemma_destinations(moves: Seq<Move>, square: (usize, usize), n: nat)
    ensures
        destinations(moves, n).contains(square) <==> some_move_to(moves, square, n),
    decreases n,
{
    if n > 0 {
        lemma_destinations(moves, square, (n - 1) as nat);
        if some_move_to(moves, square, n) {
            let k = choose|k: int| 0 <= k < n && (#[trigger] moves[k]).to == square;
            if k < n - 1 {
                assert(some_move_to(moves, square, (n - 1) as nat));
            }
        }
        if some_move_to(moves, square, (n - 1) as nat) {
            let k = choose|k: int| 0 <= k < n - 1 && (#[trigger] moves[k]).to == square;
            assert(moves[k].to == square);
        }
        if moves[n - 1].to == square {
            assert(some_move_to(moves, square, n));
        }
    }
}

/// Whether the piece on the square of index `index`, in row-major order, is
/// of side `color` and has a move that ends on `square`.
pub open spec fn attacks_from(
    pieces: Map<(int, int), Piece>,
    color: Color,
    square: (usize, usize),
    index: int,
) -> bool {
    let from = (index / 8, index % 8);
    &&& pieces.get(from) is Some
    &&& pieces[from].color == color
    &&& some_move_to(intrinsic_moves(pieces, from), square, intrinsic_moves(pieces, from).len())
}

/// A square is attacked from the first `n` squares exactly where a piece of
/// that side on one of them has a move that ends on it.
pub proof fn lemma_attacked_from(
    pieces: Map<(int, int), Piece>,
    color: Color,
    square: (usize, usize),
    n: nat,
)
    ensures
        attacked_from(pieces, color, n).contains(square) <==> exists|index: int|
            0 <= index < n && #[trigger] attacks_from(pieces, color, square, index),
    decreases n,
{
    if n > 0 {
        lemma_attacked_from(pieces, color, square, (n - 1) as nat);
        let from = ((n - 1) / 8, (n - 1) % 8);
        let moves = intrinsic_moves(pieces, from);
        lemma_destinations(moves, square, moves.len());
        if exists|index: int| 0 <= index < n && #[trigger] attacks_from(pieces, color, square, index) {
            let index = choose|index: int|
                0 <= index < n && #[trigger] attacks_from(pieces, color, square, index);
            if index < n - 1 {
                assert(attacks_from(pieces, color, square, index));
            }
        }
        if exists|index: int|
            0 <= index < n - 1 && #[trigger] attacks_from(pieces, color, square, index) {
            let index = choose|index: int|
                0 <= index < n - 1 && #[trigger] attacks_from(pieces, color, square, index);
            assert(attacks_from(pieces, color, square, index));
        }
        if attacks_from(pieces, color, square, n - 1) {
            assert(exists|index: int|
                0 <= index < n && #[trigger] attacks_from(pieces, color, square, index));
        }
    }
}

/// A side attacks a square exactly where one of its pieces has a move that
/// ends on it.
pub proof fn lemma_attacked_squares(
    pieces: Map<(int, int), Piece>,
    color: Color,
    square: (usize, usize),
)
    ensures
        attacked_squares(pieces, color).contains(square) <==> exists|index: int|
            0 <= index < 64 && #[trigger] attacks_from(pieces, color, square, index),
{
    lemma_attacked_from(pieces, color, square, 64);
}

} // verus!
