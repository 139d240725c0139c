//! Attacked squares, check, castling rights and the king's legal moves.

use crate::board::ChessBoard;
use crate::moves::{can_land, intrinsic_moves, piece_of_kind};
use crate::squares::{is_marked, mark};
use crate::types::{CastlingStatus, ChessMove, Color, Move, Piece, PieceType};
use std::collections::BTreeSet;
use vstd::prelude::*;

verus! {

/// The squares on which the first `n` moves of a list end.
pub open spec fn destinations(moves: Seq<Move>, n: nat) -> Set<(usize, usize)>
    decreases n,
{
    if n == 0 {
        Set::empty()
    } else {
        destinations(moves, (n - 1) as nat).insert(moves[n - 1].to)
    }
}

/// The squares to which the pieces of side `color` that stand on the first
/// `n` squares, in row-major order, can move.
pub open spec fn attacked_from(pieces: Map<(int, int), Piece>, color: Color, n: nat) -> Set<
    (usize, usize),
>
    decreases n,
{
    if n == 0 {
        Set::empty()
    } else {
        let rest = attacked_from(pieces, color, (n - 1) as nat);
        let from = ((n - 1) / 8, (n - 1) % 8);
        match pieces.get(from) {
            Some(p) => if p.color == color {
                rest.union(
                    destinations(intrinsic_moves(pieces, from), intrinsic_moves(pieces, from).len()),
                )
            } else {
                rest
            },
            None => rest,
        }
    }
}

/// The squares that side `color` attacks: the union, over its pieces, of the
/// squares to which each can move.
pub open spec fn attacked_squares(pieces: Map<(int, int), Piece>, color: Color) -> Set<
    (usize, usize),
> {
    attacked_from(pieces, color, 64)
}

/// Whether the piece on `at` is a king that the other side attacks.
pub open spec fn in_check(pieces: Map<(int, int), Piece>, at: (int, int)) -> bool {
    match piece_of_kind(pieces, at, PieceType::King) {
        Some(king) => attacked_squares(pieces, king.color.other()).contains(
            (at.0 as usize, at.1 as usize),
        ),
        None => false,
    }
}

/// The row on which a side castles: row 0 for Black, row 7 for White.
pub open spec fn castling_row(color: Color) -> int {
    match color {
        Color::Black => 0,
        Color::White => 7,
    }
}

/// The squares between the king and the rook with which it castles, from
/// the king outwards.
pub open spec fn castling_path(color: Color, side: ChessMove) -> Seq<(int, int)> {
    let row = castling_row(color);
    match side {
        ChessMove::CastleKingside => seq![(row, 5int), (row, 6int)],
        ChessMove::CastleQueenside => seq![(row, 3int), (row, 2int), (row, 1int)],
        ChessMove::Simple => Seq::empty(),
    }
}

/// The column of the rook with which a side castles.
pub open spec fn castling_rook_col(side: ChessMove) -> int {
    match side {
        ChessMove::CastleQueenside => 0,
        _ => 7,
    }
}

/// Whether side `color` may castle on the given side: king and rook stand
/// on their first squares, are of that side and have never moved; with
/// `check_empty_squares`, nothing stands between them; and the other side
/// attacks neither the king's square nor any square between king and rook.
pub open spec fn may_castle(
    pieces: Map<(int, int), Piece>,
    color: Color,
    side: ChessMove,
    check_empty_squares: bool,
) -> bool {
    let row = castling_row(color);
    let path = castling_path(color, side);
    let attacked = attacked_squares(pieces, color.other());
    &&& side != ChessMove::Simple
    &&& pieces.get((row, 4)) is Some
    &&& pieces.get((row, castling_rook_col(side))) is Some
    &&& pieces[(row, 4)] == (Piece { color, piece_type: PieceType::King, moves: 0 })
    &&& pieces[(row, castling_rook_col(side))] == (Piece {
        color,
        piece_type: PieceType::Rook,
        moves: 0,
    })
    &&& check_empty_squares ==> forall|i: int|
        0 <= i < path.len() ==> pieces.get(#[trigger] path[i]) is None
    &&& !attacked.contains((row as usize, 4))
    &&& forall|i: int|
        0 <= i < path.len() ==> !attacked.contains(
            ((#[trigger] path[i]).0 as usize, path[i].1 as usize),
        )
}

/// The eight neighbours of a square, by row and then by column.
pub open spec fn neighbour_offsets() -> Seq<(isize, isize)> {
    seq![
        (-1isize, -1isize),
        (-1isize, 0isize),
        (-1isize, 1isize),
        (0isize, -1isize),
        (0isize, 1isize),
        (1isize, -1isize),
        (1isize, 0isize),
        (1isize, 1isize),
    ]
}

/// The pieces after the king on `from` has gone to `to`, taking what stood
/// there.
pub open spec fn after_king_step(
    pieces: Map<(int, int), Piece>,
    from: (int, int),
    king: Piece,
    to: (int, int),
) -> Map<(int, int), Piece> {
    pieces.remove(from).insert(to, king)
}

/// Whether the king on `from` may step to `to`: it may land there, the
/// other side does not attack the square now, and does not attack it once
/// the king stands on it.
pub open spec fn king_may_step(
    pieces: Map<(int, int), Piece>,
    from: (int, int),
    king: Piece,
    to: (int, int),
) -> bool {
    &&& can_land(pieces, king.color, to.0, to.1)
    &&& !attacked_squares(pieces, king.color.other()).contains((to.0 as usize, to.1 as usize))
    &&& !attacked_squares(after_king_step(pieces, from, king, to), king.color.other()).contains(
        (to.0 as usize, to.1 as usize),
    )
}

/// The steps that the king on `from` may take to the first `n` of its
/// neighbours.
pub open spec fn safe_steps(
    pieces: Map<(int, int), Piece>,
    from: (int, int),
    king: Piece,
    n: nat,
) -> Seq<Move>
    decreases n,
{
    if n == 0 {
        Seq::empty()
    } else {
        let rest = safe_steps(pieces, from, king, (n - 1) as nat);
        let to = (from.0 + neighbour_offsets()[n - 1].0, from.1 + neighbour_offsets()[n - 1].1);
        if king_may_step(pieces, from, king, to) {
            rest.push(crate::types::step(from, to))
        } else {
            rest
        }
    }
}

/// The castling move of the king on `from` to column `col` of its row, where
/// `allowed`.
pub open spec fn castling_move(from: (int, int), col: int, allowed: bool) -> Seq<Move> {
    if allowed {
        seq![
            Move {
                from: (from.0 as usize, from.1 as usize),
                to: (from.0 as usize, col as usize),
                castling: true,
            },
        ]
    } else {
        Seq::empty()
    }
}

/// The legal moves of the king on `from`: its safe steps, by row and then
/// by column of the square reached, then castling kingside (to column 6)
/// and queenside (to column 2) where its side may castle. None where `from`
/// holds no king. A king in check with no legal move is checkmated; one not
/// in check with none is stalemated.
pub open spec fn legal_king_moves(pieces: Map<(int, int), Piece>, from: (int, int)) -> Seq<Move> {
    match piece_of_kind(pieces, from, PieceType::King) {
        None => Seq::empty(),
        Some(king) => safe_steps(pieces, from, king, 8) + castling_move(
            from,
            6,
            may_castle(pieces, king.color, ChessMove::CastleKingside, false),
        ) + castling_move(
            from,
            2,
            may_castle(pieces, king.color, ChessMove::CastleQueenside, false),
        ),
    }
}

/// The letter of a castling where it is available.
pub open spec fn castling_letter(letter: char, available: bool) -> Seq<char> {
    if available {
        seq![letter]
    } else {
        Seq::empty()
    }
}

/// The letters among "KQkq" of the castlings that are available, squares
/// between king and rook left aside.
pub open spec fn castling_letters(pieces: Map<(int, int), Piece>) -> Seq<char> {
    castling_letter('K', may_castle(pieces, Color::White, ChessMove::CastleKingside, false))
        + castling_letter('Q', may_castle(pieces, Color::White, ChessMove::CastleQueenside, false))
        + castling_letter('k', may_castle(pieces, Color::Black, ChessMove::CastleKingside, false))
        + castling_letter('q', may_castle(pieces, Color::Black, ChessMove::CastleQueenside, false))
}

/// The castling rights as FEN writes them: the letters of the castlings
/// that are available, or "-" where none is.
pub open spec fn castling_text(pieces: Map<(int, int), Piece>) -> Seq<char> {
    if castling_letters(pieces).len() == 0 {
        seq!['-']
    } else {
        castling_letters(pieces)
    }
}

impl ChessBoard {
    /// The squares that side `color` attacks.
    pub fn targeted_squares(&self, color: Color) -> (squares: BTreeSet<(usize, usize)>)
        ensures
            squares@ == attacked_squares(self@.pieces, color),
    {
        let mut squares: BTreeSet<(usize, usize)> = BTreeSet::new();
        let mut n: usize = 0;
        while n < 64
            invariant
                n <= 64,
                squares@ == attacked_from(self@.pieces, color, n as nat),
            decreases 64 - n,
        {
            if let Some(piece) = self.get_piece_0(n / 8, n % 8) {
                if piece.color == color {
                    let moves = self.generate_intrinsic_moves((n / 8, n % 8));
                    let ghost before = squares@;
                    let mut k: usize = 0;
                    while k < moves.len()
                        invariant
                            k <= moves.len(),
                            squares@ == before.union(destinations(moves@, k as nat)),
                        decreases moves.len() - k,
                    {
                        mark(&mut squares, moves[k].to);
                        k += 1;
                        assert(squares@ =~= before.union(destinations(moves@, k as nat)));
                    }
                }
            }
            n += 1;
        }
        squares
    }

    /// Whether the piece on `position` is a king that the other side attacks.
    pub fn is_king_in_check(&self, position: (usize, usize)) -> (b: bool)
        requires
            position.0 < 8,
            position.1 < 8,
        ensures
            b == in_check(self@.pieces, (position.0 as int, position.1 as int)),
    {
        if let Some(king) = self.get_piece_0(position.0, position.1) {
            if king.piece_type == PieceType::King {
                let targeted = self.targeted_squares(king.color.inverse());
                return is_marked(&targeted, position);
            }
        }
        false
    }

    /// Whether side `color` may castle on the given side. With
    /// `check_empty_squares` unset, pieces between king and rook do not
    /// count against it.
    pub fn can_castle(&self, color: Color, castle_type: ChessMove, check_empty_squares: bool) -> (b:
        bool)
        ensures
            b == may_castle(self@.pieces, color, castle_type, check_empty_squares),
    {
        let row: usize = if color == Color::Black {
            0
        } else {
            7
        };
        let rook_col: usize;
        let mut path: Vec<(usize, usize)> = Vec::new();
        match castle_type {
            ChessMove::CastleKingside => {
                rook_col = 7;
                path.push((row, 5));
                path.push((row, 6));
            },
            ChessMove::CastleQueenside => {
                rook_col = 0;
                path.push((row, 3));
                path.push((row, 2));
                path.push((row, 1));
            },
            ChessMove::Simple => {
                return false;
            },
        }
        let ghost spec_path = castling_path(color, castle_type);
        assert(path@.len() == spec_path.len());
        assert(forall|i: int|
            0 <= i < path@.len() ==> (#[trigger] path@[i]).0 == spec_path[i].0 && path@[i].1
                == spec_path[i].1);
        let king = match self.get_piece_0(row, 4) {
            Some(p) => p,
            None => return false,
        };
        let rook = match self.get_piece_0(row, rook_col) {
            Some(p) => p,
            None => return false,
        };
        if !(king.piece_type == PieceType::King && rook.piece_type == PieceType::Rook && rook.color
            == color && king.color == color && king.moves == 0 && rook.moves == 0) {
            return false;
        }
        let targeted = self.targeted_squares(color.inverse());
        let mut all_empty = true;
        let mut none_attacked = true;
        let mut i: usize = 0;
        while i < path.len()
            invariant
                i <= path.len(),
                row < 8,
                path@.len() == spec_path.len(),
                forall|i: int|
                    0 <= i < path@.len() ==> (#[trigger] path@[i]).0 == spec_path[i].0 && path@[i].1
                        == spec_path[i].1 && (path@[i]).0 < 8 && (path@[i]).1 < 8,
                all_empty == (forall|j: int|
                    0 <= j < i ==> self@.pieces.get(#[trigger] spec_path[j]) is None),
                none_attacked == (forall|j: int|
                    0 <= j < i ==> !targeted@.contains(
                        ((#[trigger] spec_path[j]).0 as usize, spec_path[j].1 as usize),
                    )),
            decreases path.len() - i,
        {
            let square = path[i];
            assert(spec_path[i as int] == (square.0 as int, square.1 as int));
            if self.get_piece_0(square.0, square.1).is_some() {
                all_empty = false;
            }
            if is_marked(&targeted, square) {
                none_attacked = false;
            }
            i += 1;
        }
        (!check_empty_squares || all_empty) && !is_marked(&targeted, (row, 4)) && none_attacked
    }

    /// The castlings that are available to each side.
    pub fn get_castling(&self, check_empty_rows: bool) -> (status: CastlingStatus)
        ensures
            status == (CastlingStatus {
                white_kingside: may_castle(
                    self@.pieces,
                    Color::White,
                    ChessMove::CastleKingside,
                    check_empty_rows,
                ),
                white_queenside: may_castle(
                    self@.pieces,
                    Color::White,
                    ChessMove::CastleQueenside,
                    check_empty_rows,
                ),
                black_kingside: may_castle(
                    self@.pieces,
                    Color::Black,
                    ChessMove::CastleKingside,
                    check_empty_rows,
                ),
                black_queenside: may_castle(
                    self@.pieces,
                    Color::Black,
                    ChessMove::CastleQueenside,
                    check_empty_rows,
                ),
                check_empty_rows,
            }),
    {
        CastlingStatus {
            white_kingside: self.can_castle(Color::White, ChessMove::CastleKingside, check_empty_rows),
            white_queenside: self.can_castle(
                Color::White,
                ChessMove::CastleQueenside,
                check_empty_rows,
            ),
            black_kingside: self.can_castle(Color::Black, ChessMove::CastleKingside, check_empty_rows),
            black_queenside: self.can_castle(
                Color::Black,
                ChessMove::CastleQueenside,
                check_empty_rows,
            ),
            check_empty_rows,
        }
    }

    /// The castling rights as FEN writes them.
    pub fn get_castling_as_string(&self) -> (s: String)
        ensures
            s@ == castling_text(self@.pieces),
    {
        let castling = self.get_castling(false);
        let mut s = String::new();
        if castling.white_kingside {
            s.push('K');
        }
        if castling.white_queenside {
            s.push('Q');
        }
        if castling.black_kingside {
            s.push('k');
        }
        if castling.black_queenside {
            s.push('q');
        }
        assert(s@ =~= castling_letters(self@.pieces));
        if s.as_str().is_empty() {
            s.push('-');
            assert(s@ =~= seq!['-']);
        }
        s
    }

    /// The legal moves of the king on `position`; the board is left as it
    /// was. None where no king stands there.
    pub fn generate_constrained_king_moves(&mut self, position: (usize, usize)) -> (moves: Vec<Move>)
        requires
            position.0 < 8,
            position.1 < 8,
        ensures
            final(self)@ == old(self)@,
            moves@ == legal_king_moves(old(self)@.pieces, (position.0 as int, position.1 as int)),
    {
        let mut moves: Vec<Move> = Vec::new();
        let king = match self.get_piece_0(position.0, position.1) {
            Some(p) => p,
            None => return moves,
        };
        if king.piece_type != PieceType::King {
            return moves;
        }
        let opponent = king.color.inverse();
        let targeted = self.targeted_squares(opponent);
        let offsets: [(isize, isize); 8] = [
            (-1, -1),
            (-1, 0),
            (-1, 1),
            (0, -1),
            (0, 1),
            (1, -1),
            (1, 0),
            (1, 1),
        ];
        assert(offsets@ =~= neighbour_offsets());
        let ghost from = (position.0 as int, position.1 as int);
        let ghost pieces = self@.pieces;
        let mut i: usize = 0;
        while i < 8
            invariant
                i <= 8,
                position.0 < 8,
                position.1 < 8,
                from == (position.0 as int, position.1 as int),
                offsets@ == neighbour_offsets(),
                self@ == old(self)@,
                pieces == old(self)@.pieces,
                pieces.get(from) == Some(king),
                opponent == king.color.other(),
                targeted@ == attacked_squares(pieces, opponent),
                moves@ == safe_steps(pieces, from, king, i as nat),
            decreases 8 - i,
        {
            let offset = offsets[i];
            let new_x: isize = position.0 as isize + offset.0;
            let new_y: isize = position.1 as isize + offset.1;
            if new_x >= 0 && new_x < 8 && new_y >= 0 && new_y < 8 {
                let to: (usize, usize) = (new_x as usize, new_y as usize);
                let occupant = self.get_piece_0(to.0, to.1);
                let may_land = match occupant {
                    Some(piece) => piece.color != king.color,
                    None => true,
                };
                if may_land && !is_marked(&targeted, to) {
                    self.put(position.0, position.1, None);
                    self.put(to.0, to.1, Some(king));
                    assert(self@.pieces =~= after_king_step(pieces, from, king, (to.0 as int, to.1 as int)));
                    let exposed = self.targeted_squares(opponent);
                    let safe = !is_marked(&exposed, to);
                    self.put(to.0, to.1, occupant);
                    self.put(position.0, position.1, Some(king));
                    assert(self@.pieces =~= pieces);
                    if safe {
                        moves.push(Move { from: position, to, castling: false });
                    }
                }
            }
            i += 1;
        }
        let ghost steps = moves@;
        if self.can_castle(king.color, ChessMove::CastleKingside, false) {
            moves.push(Move { from: position, to: (position.0, 6), castling: true });
        }
        let ghost with_kingside = moves@;
        if self.can_castle(king.color, ChessMove::CastleQueenside, false) {
            moves.push(Move { from: position, to: (position.0, 2), castling: true });
        }
        proof {
            assert(with_kingside =~= steps + castling_move(
                from,
                6,
                may_castle(pieces, king.color, ChessMove::CastleKingside, false),
            ));
            assert(moves@ =~= with_kingside + castling_move(
                from,
                2,
                may_castle(pieces, king.color, ChessMove::CastleQueenside, false),
            ));
        }
        moves
    }
}

} // verus!
