//! The moves of each kind of piece, by geometry alone: where a piece may go
//! from a square, without regard to check.
//!
//! The order of the moves in each list is fixed: it is the order of the
//! offsets and directions below.

use crate::board::ChessBoard;
use crate::types::{on_board, step, Color, Move, Piece, PieceType};
use vstd::prelude::*;

verus! {

/// Whether a piece of side `color` may come to stand on `(row, col)`: the
/// square is on the board and holds no piece of that side.
pub open spec fn can_land(pieces: Map<(int, int), Piece>, color: Color, row: int, col: int) -> bool {
    on_board(row, col) && match pieces.get((row, col)) {
        Some(p) => p.color != color,
        None => true,
    }
}

/// Whether a pawn of side `color` may capture on `(row, col)`: the square is
/// on the board and holds a piece of the other side.
pub open spec fn can_capture(pieces: Map<(int, int), Piece>, color: Color, row: int, col: int) -> bool {
    on_board(row, col) && match pieces.get((row, col)) {
        Some(p) => p.color != color,
        None => false,
    }
}

/// Whether `(row, col)` is on the board and empty.
pub open spec fn is_free(pieces: Map<(int, int), Piece>, row: int, col: int) -> bool {
    on_board(row, col) && pieces.get((row, col)) is None
}

/// The eight jumps of a knight, as (rows, columns).
pub open spec fn knight_offsets() -> Seq<(isize, isize)> {
    seq![
        (1isize, 2isize),
        (2isize, 1isize),
        (-1isize, 2isize),
        (-2isize, 1isize),
        (1isize, -2isize),
        (2isize, -1isize),
        (-1isize, -2isize),
        (-2isize, -1isize),
    ]
}

/// The eight steps of a king, as (rows, columns).
pub open spec fn king_offsets() -> Seq<(isize, isize)> {
    seq![
        (-1isize, -1isize),
        (0isize, -1isize),
        (1isize, -1isize),
        (-1isize, 0isize),
        (1isize, 0isize),
        (-1isize, 1isize),
        (0isize, 1isize),
        (1isize, 1isize),
    ]
}

/// The four directions of a rook.
pub open spec fn rook_directions() -> Seq<(isize, isize)> {
    seq![(-1isize, 0isize), (1isize, 0isize), (0isize, -1isize), (0isize, 1isize)]
}

/// The four directions of a bishop.
pub open spec fn bishop_directions() -> Seq<(isize, isize)> {
    seq![(-1isize, -1isize), (-1isize, 1isize), (1isize, -1isize), (1isize, 1isize)]
}

/// The eight directions of a queen: those of a rook, then those of a bishop.
pub open spec fn queen_directions() -> Seq<(isize, isize)> {
    rook_directions() + bishop_directions()
}

/// The moves of a piece of side `color` on `from` by the first `n` of the
/// given offsets: one move for each offset that leads to a square where the
/// piece may land.
pub open spec fn leaps(
    pieces: Map<(int, int), Piece>,
    from: (int, int),
    color: Color,
    offsets: Seq<(isize, isize)>,
    n: nat,
) -> Seq<Move>
    decreases n,
{
    if n == 0 {
        Seq::empty()
    } else {
        let rest = leaps(pieces, from, color, offsets, (n - 1) as nat);
        let to = (from.0 + offsets[n - 1].0, from.1 + offsets[n - 1].1);
        if can_land(pieces, color, to.0, to.1) {
            rest.push(step(from, to))
        } else {
            rest
        }
    }
}

/// The moves of a piece of side `color` on `from` along one direction,
/// beyond the square `at`: every empty square up to the first occupied one,
/// and that one too where it holds a piece of the other side. No more than
/// `reach` squares are visited; seven cross the whole board.
pub open spec fn ray(
    pieces: Map<(int, int), Piece>,
    from: (int, int),
    color: Color,
    direction: (isize, isize),
    at: (int, int),
    reach: nat,
) -> Seq<Move>
    decreases reach,
{
    let to = (at.0 + direction.0, at.1 + direction.1);
    if reach == 0 || !on_board(to.0, to.1) {
        Seq::empty()
    } else {
        match pieces.get(to) {
            None => seq![step(from, to)] + ray(
                pieces,
                from,
                color,
                direction,
                to,
                (reach - 1) as nat,
            ),
            Some(p) => if p.color != color {
                seq![step(from, to)]
            } else {
                Seq::empty()
            },
        }
    }
}

/// The moves of a piece of side `color` on `from` along the first `n` of the
/// given directions, one ray after the other.
pub open spec fn slides(
    pieces: Map<(int, int), Piece>,
    from: (int, int),
    color: Color,
    directions: Seq<(isize, isize)>,
    n: nat,
) -> Seq<Move>
    decreases n,
{
    if n == 0 {
        Seq::empty()
    } else {
        slides(pieces, from, color, directions, (n - 1) as nat) + ray(
            pieces,
            from,
            color,
            directions[n - 1],
            from,
            7,
        )
    }
}

/// The piece on `from`, where it is of the given kind.
pub open spec fn piece_of_kind(
    pieces: Map<(int, int), Piece>,
    from: (int, int),
    piece_type: PieceType,
) -> Option<Piece> {
    match pieces.get(from) {
        Some(p) => if p.piece_type == piece_type {
            Some(p)
        } else {
            None
        },
        None => None,
    }
}

/// The row change of a pawn's step: White moves towards row 0.
pub open spec fn pawn_direction(color: Color) -> int {
    match color {
        Color::White => -1,
        Color::Black => 1,
    }
}

/// The row on which the pawns of a side start.
pub open spec fn pawn_home_row(color: Color) -> int {
    match color {
        Color::White => 6,
        Color::Black => 1,
    }
}

/// The moves of the pawn on `from`: one step ahead onto an empty square, a
/// capture to the left, a capture to the right, and two steps ahead for a
/// pawn that has never moved, stands on its home row and has both squares
/// ahead empty. None where `from` holds no pawn.
pub open spec fn pawn_moves(pieces: Map<(int, int), Piece>, from: (int, int)) -> Seq<Move> {
    match piece_of_kind(pieces, from, PieceType::Pawn) {
        None => Seq::empty(),
        Some(pawn) => {
            let ahead = from.0 + pawn_direction(pawn.color);
            let beyond = ahead + pawn_direction(pawn.color);
            let one: Seq<Move> = if is_free(pieces, ahead, from.1) {
                seq![step(from, (ahead, from.1))]
            } else {
                Seq::empty()
            };
            let left: Seq<Move> = if can_capture(pieces, pawn.color, ahead, from.1 - 1) {
                seq![step(from, (ahead, from.1 - 1))]
            } else {
                Seq::empty()
            };
            let right: Seq<Move> = if can_capture(pieces, pawn.color, ahead, from.1 + 1) {
                seq![step(from, (ahead, from.1 + 1))]
            } else {
                Seq::empty()
            };
            let two: Seq<Move> = if pawn.moves == 0 && from.0 == pawn_home_row(pawn.color)
                && is_free(pieces, ahead, from.1) && is_free(pieces, beyond, from.1) {
                seq![step(from, (beyond, from.1))]
            } else {
                Seq::empty()
            };
            one + left + right + two
        },
    }
}

/// The moves of the knight on `from`; none where `from` holds no knight.
pub open spec fn knight_moves(pieces: Map<(int, int), Piece>, from: (int, int)) -> Seq<Move> {
    match piece_of_kind(pieces, from, PieceType::Knight) {
        None => Seq::empty(),
        Some(knight) => leaps(pieces, from, knight.color, knight_offsets(), 8),
    }
}

/// The moves of the king on `from`, castling left aside; none where `from`
/// holds no king.
pub open spec fn king_moves(pieces: Map<(int, int), Piece>, from: (int, int)) -> Seq<Move> {
    match piece_of_kind(pieces, from, PieceType::King) {
        None => Seq::empty(),
        Some(king) => leaps(pieces, from, king.color, king_offsets(), 8),
    }
}

/// The moves of the bishop on `from`; none where `from` holds no bishop.
pub open spec fn bishop_moves(pieces: Map<(int, int), Piece>, from: (int, int)) -> Seq<Move> {
    match piece_of_kind(pieces, from, PieceType::Bishop) {
        None => Seq::empty(),
        Some(bishop) => slides(pieces, from, bishop.color, bishop_directions(), 4),
    }
}

/// The moves of the rook on `from`; none where `from` holds no rook.
pub open spec fn rook_moves(pieces: Map<(int, int), Piece>, from: (int, int)) -> Seq<Move> {
    match piece_of_kind(pieces, from, PieceType::Rook) {
        None => Seq::empty(),
        Some(rook) => slides(pieces, from, rook.color, rook_directions(), 4),
    }
}

/// The moves of the queen on `from`; none where `from` holds no queen.
pub open spec fn queen_moves(pieces: Map<(int, int), Piece>, from: (int, int)) -> Seq<Move> {
    match piece_of_kind(pieces, from, PieceType::Queen) {
        None => Seq::empty(),
        Some(queen) => slides(pieces, from, queen.color, queen_directions(), 8),
    }
}

/// The moves of whatever stands on `from`; none for an empty square.
pub open spec fn intrinsic_moves(pieces: Map<(int, int), Piece>, from: (int, int)) -> Seq<Move> {
    match pieces.get(from) {
        None => Seq::empty(),
        Some(p) => match p.piece_type {
            PieceType::Pawn => pawn_moves(pieces, from),
            PieceType::Knight => knight_moves(pieces, from),
            PieceType::Bishop => bishop_moves(pieces, from),
            PieceType::Rook => rook_moves(pieces, from),
            PieceType::King => king_moves(pieces, from),
            PieceType::Queen => queen_moves(pieces, from),
        },
    }
}

/// The first of the first `n` moves of a list that ends on `to`.
pub open spec fn first_move_to(moves: Seq<Move>, to: (usize, usize), n: nat) -> Option<Move>
    decreases n,
{
    if n == 0 {
        None
    } else {
        match first_move_to(moves, to, (n - 1) as nat) {
            Some(m) => Some(m),
            None => if moves[n - 1].to == to {
                Some(moves[n - 1])
            } else {
                None
            },
        }
    }
}

/// The move to `to` of the first piece of the given side and kind, among
/// the first `n` squares in row-major order, that has one.
pub open spec fn inferred_move(
    pieces: Map<(int, int), Piece>,
    color: Color,
    piece_type: PieceType,
    to: (usize, usize),
    n: nat,
) -> Option<Move>
    decreases n,
{
    if n == 0 {
        None
    } else {
        match inferred_move(pieces, color, piece_type, to, (n - 1) as nat) {
            Some(m) => Some(m),
            None => {
                let from = ((n - 1) / 8, (n - 1) % 8);
                match pieces.get(from) {
                    Some(p) => if p.color == color && p.piece_type == piece_type {
                        first_move_to(
                            intrinsic_moves(pieces, from),
                            to,
                            intrinsic_moves(pieces, from).len(),
                        )
                    } else {
                        None
                    },
                    None => None,
                }
            },
        }
    }
}

/// A move found among the first `n` squares is found among the first `m`,
/// for any `m` from `n` on.
pub proof fn lemma_inferred_move_stays(
    pieces: Map<(int, int), Piece>,
    color: Color,
    piece_type: PieceType,
    to: (usize, usize),
    n: nat,
    m: nat,
)
    requires
        n <= m,
        inferred_move(pieces, color, piece_type, to, n) is Some,
    ensures
        inferred_move(pieces, color, piece_type, to, m) == inferred_move(
            pieces,
            color,
            piece_type,
            to,
            n,
        ),
    decreases m,
{
    if n < m {
        lemma_inferred_move_stays(pieces, color, piece_type, to, n, (m - 1) as nat);
    }
}

/// A move found among the first `n` of a list is found among the first `m`,
/// for any `m` from `n` on.
pub proof fn lemma_first_move_stays(moves: Seq<Move>, to: (usize, usize), n: nat, m: nat)
    requires
        n <= m,
        first_move_to(moves, to, n) is Some,
    ensures
        first_move_to(moves, to, m) == first_move_to(moves, to, n),
    decreases m,
{
    if n < m {
        lemma_first_move_stays(moves, to, n, (m - 1) as nat);
    }
}

impl ChessBoard {
    /// The moves of a piece of side `color` on `from` by each of the eight
    /// offsets.
    fn leap(&self, from: (usize, usize), color: Color, offsets: &[(isize, isize); 8]) -> (moves: Vec<Move>)
        requires
            from.0 < 8,
            from.1 < 8,
            forall|i: int| 0 <= i < 8 ==> -2 <= (#[trigger] offsets@[i]).0 <= 2 && -2 <= offsets@[i].1 <= 2,
        ensures
            moves@ == leaps(self@.pieces, (from.0 as int, from.1 as int), color, offsets@, 8),
    {
        let mut moves: Vec<Move> = Vec::new();
        let mut i: usize = 0;
        while i < 8
            invariant
                i <= 8,
                from.0 < 8,
                from.1 < 8,
                forall|i: int| 0 <= i < 8 ==> -2 <= (#[trigger] offsets@[i]).0 <= 2 && -2 <= offsets@[i].1 <= 2,
                moves@ == leaps(self@.pieces, (from.0 as int, from.1 as int), color, offsets@, i as nat),
            decreases 8 - i,
        {
            let offset = offsets[i];
            let new_x: isize = from.0 as isize + offset.0;
            let new_y: isize = from.1 as isize + offset.1;
            if new_x >= 0 && new_x < 8 && new_y >= 0 && new_y < 8 {
                let may_land = match self.get_piece_0(new_x as usize, new_y as usize) {
                    Some(piece) => piece.color != color,
                    None => true,
                };
                if may_land {
                    moves.push(Move { from, to: (new_x as usize, new_y as usize), castling: false });
                }
            }
            i += 1;
        }
        moves
    }

    /// Appends to `moves` the moves of a piece of side `color` on `from`
    /// along one direction.
    fn cast_ray(&self, from: (usize, usize), color: Color, direction: (isize, isize), moves: &mut Vec<Move>)
        requires
            from.0 < 8,
            from.1 < 8,
            -1 <= direction.0 <= 1,
            -1 <= direction.1 <= 1,
        ensures
            final(moves)@ == old(moves)@ + ray(
                self@.pieces,
                (from.0 as int, from.1 as int),
                color,
                direction,
                (from.0 as int, from.1 as int),
                7,
            ),
    {
        let mut x: usize = from.0;
        let mut y: usize = from.1;
        let mut reach: usize = 7;
        let ghost origin = (from.0 as int, from.1 as int);
        while reach > 0
            invariant_except_break
                moves@ + ray(self@.pieces, origin, color, direction, (x as int, y as int), reach as nat)
                    == old(moves)@ + ray(self@.pieces, origin, color, direction, origin, 7),
            invariant
                x < 8,
                y < 8,
                reach <= 7,
                from.0 < 8,
                from.1 < 8,
                -1 <= direction.0 <= 1,
                -1 <= direction.1 <= 1,
                origin == (from.0 as int, from.1 as int),
            ensures
                moves@ == old(moves)@ + ray(self@.pieces, origin, color, direction, origin, 7),
            decreases reach,
        {
            let new_x: isize = x as isize + direction.0;
            let new_y: isize = y as isize + direction.1;
            if new_x < 0 || new_x >= 8 || new_y < 0 || new_y >= 8 {
                assert(moves@ + Seq::<Move>::empty() =~= moves@);
                break;
            }
            let ghost before = moves@;
            let ghost rest = ray(
                self@.pieces,
                origin,
                color,
                direction,
                (new_x as int, new_y as int),
                (reach - 1) as nat,
            );
            match self.get_piece_0(new_x as usize, new_y as usize) {
                Some(piece) => {
                    if piece.color != color {
                        moves.push(Move { from, to: (new_x as usize, new_y as usize), castling: false });
                        assert(moves@ =~= before + seq![step(origin, (new_x as int, new_y as int))]);
                    } else {
                        assert(moves@ + Seq::<Move>::empty() =~= moves@);
                    }
                    break;
                },
                None => {
                    moves.push(Move { from, to: (new_x as usize, new_y as usize), castling: false });
                    assert(moves@ + rest =~= before + (seq![step(origin, (new_x as int, new_y as int))]
                        + rest));
                },
            }
            x = new_x as usize;
            y = new_y as usize;
            reach -= 1;
        }
    }

    /// The moves of the pawn on `position`; none where no pawn stands there.
    pub fn generate_intrinsic_pawn_moves(&self, position: (usize, usize)) -> (moves: Vec<Move>)
        requires
            position.0 < 8,
            position.1 < 8,
        ensures
            moves@ == pawn_moves(self@.pieces, (position.0 as int, position.1 as int)),
    {
        let mut moves: Vec<Move> = Vec::new();
        let (x, y) = position;
        let pawn = match self.get_piece_0(x, y) {
            Some(p) => p,
            None => return moves,
        };
        if pawn.piece_type != PieceType::Pawn {
            return moves;
        }
        let direction: isize = if pawn.color == Color::White {
            -1
        } else {
            1
        };
        let ghost from = (x as int, y as int);
        let ghost pieces = self@.pieces;
        let fwd: isize = x as isize + direction;
        let mut one_free = false;
        if 0 <= fwd && fwd < 8 {
            let ahead: usize = fwd as usize;
            if self.get_piece_0(ahead, y).is_none() {
                one_free = true;
                moves.push(Move { from: position, to: (ahead, y), castling: false });
            }
            if y >= 1 {
                let left: usize = y - 1;
                if let Some(other) = self.get_piece_0(ahead, left) {
                    if other.color != pawn.color {
                        moves.push(Move { from: position, to: (ahead, left), castling: false });
                    }
                }
            }
            let right: usize = y + 1;
            if right < 8 {
                if let Some(other) = self.get_piece_0(ahead, right) {
                    if other.color != pawn.color {
                        moves.push(Move { from: position, to: (ahead, right), castling: false });
                    }
                }
            }
        }
        let initial_position = match pawn.color {
            Color::White => x == 6,
            Color::Black => x == 1,
        };
        if initial_position && pawn.moves == 0 && one_free {
            let beyond: usize = (x as isize + 2 * direction) as usize;
            if self.get_piece_0(beyond, y).is_none() {
                moves.push(Move { from: position, to: (beyond, y), castling: false });
            }
        }
        assert(moves@ =~= pawn_moves(pieces, from));
        moves
    }

    /// The moves of the knight on `position`; none where no knight stands
    /// there.
    pub fn generate_intrinsic_knight_moves(&self, position: (usize, usize)) -> (moves: Vec<Move>)
        requires
            position.0 < 8,
            position.1 < 8,
        ensures
            moves@ == knight_moves(self@.pieces, (position.0 as int, position.1 as int)),
    {
        let knight = match self.get_piece_0(position.0, position.1) {
            Some(p) => p,
            None => return Vec::new(),
        };
        if knight.piece_type != PieceType::Knight {
            return Vec::new();
        }
        let offsets: [(isize, isize); 8] = [
            (1, 2),
            (2, 1),
            (-1, 2),
            (-2, 1),
            (1, -2),
            (2, -1),
            (-1, -2),
            (-2, -1),
        ];
        assert(offsets@ =~= knight_offsets());
        self.leap(position, knight.color, &offsets)
    }

    /// The moves of the bishop on `position`; none where no bishop stands
    /// there.
    pub fn generate_intrinsic_bishop_moves(&self, position: (usize, usize)) -> (moves: Vec<Move>)
        requires
            position.0 < 8,
            position.1 < 8,
        ensures
            moves@ == bishop_moves(self@.pieces, (position.0 as int, position.1 as int)),
    {
        let mut moves: Vec<Move> = Vec::new();
        let bishop = match self.get_piece_0(position.0, position.1) {
            Some(p) => p,
            None => return moves,
        };
        if bishop.piece_type != PieceType::Bishop {
            return moves;
        }
        let directions: [(isize, isize); 4] = [(-1, -1), (-1, 1), (1, -1), (1, 1)];
        assert(directions@ =~= bishop_directions());
        let ghost from = (position.0 as int, position.1 as int);
        let mut i: usize = 0;
        while i < 4
            invariant
                i <= 4,
                position.0 < 8,
                position.1 < 8,
                from == (position.0 as int, position.1 as int),
                directions@ == bishop_directions(),
                moves@ == slides(self@.pieces, from, bishop.color, bishop_directions(), i as nat),
            decreases 4 - i,
        {
            self.cast_ray(position, bishop.color, directions[i], &mut moves);
            i += 1;
        }
        moves
    }

    /// The moves of the rook on `position`; none where no rook stands there.
    pub fn generate_intrinsic_rook_moves(&self, position: (usize, usize)) -> (moves: Vec<Move>)
        requires
            position.0 < 8,
            position.1 < 8,
        ensures
            moves@ == rook_moves(self@.pieces, (position.0 as int, position.1 as int)),
    {
        let mut moves: Vec<Move> = Vec::new();
        let rook = match self.get_piece_0(position.0, position.1) {
            Some(p) => p,
            None => return moves,
        };
        if rook.piece_type != PieceType::Rook {
            return moves;
        }
        let directions: [(isize, isize); 4] = [(-1, 0), (1, 0), (0, -1), (0, 1)];
        assert(directions@ =~= rook_directions());
        let ghost from = (position.0 as int, position.1 as int);
        let mut i: usize = 0;
        while i < 4
            invariant
                i <= 4,
                position.0 < 8,
                position.1 < 8,
                from == (position.0 as int, position.1 as int),
                directions@ == rook_directions(),
                moves@ == slides(self@.pieces, from, rook.color, rook_directions(), i as nat),
            decreases 4 - i,
        {
            self.cast_ray(position, rook.color, directions[i], &mut moves);
            i += 1;
        }
        moves
    }

    /// The moves of the king on `position`, castling left aside; none where
    /// no king stands there.
    pub fn generate_intrinsic_king_moves(&self, position: (usize, usize)) -> (moves: Vec<Move>)
        requires
            position.0 < 8,
            position.1 < 8,
        ensures
            moves@ == king_moves(self@.pieces, (position.0 as int, position.1 as int)),
    {
        let king = match self.get_piece_0(position.0, position.1) {
            Some(p) => p,
            None => return Vec::new(),
        };
        if king.piece_type != PieceType::King {
            return Vec::new();
        }
        let offsets: [(isize, isize); 8] = [
            (-1, -1),
            (0, -1),
            (1, -1),
            (-1, 0),
            (1, 0),
            (-1, 1),
            (0, 1),
            (1, 1),
        ];
        assert(offsets@ =~= king_offsets());
        self.leap(position, king.color, &offsets)
    }

    /// The moves of the queen on `position`; none where no queen stands
    /// there.
    pub fn generate_intrinsic_queen_moves(&self, position: (usize, usize)) -> (moves: Vec<Move>)
        requires
            position.0 < 8,
            position.1 < 8,
        ensures
            moves@ == queen_moves(self@.pieces, (position.0 as int, position.1 as int)),
    {
        let mut moves: Vec<Move> = Vec::new();
        let queen = match self.get_piece_0(position.0, position.1) {
            Some(p) => p,
            None => return moves,
        };
        if queen.piece_type != PieceType::Queen {
            return moves;
        }
        let directions: [(isize, isize); 8] = [
            (-1, 0),
            (1, 0),
            (0, -1),
            (0, 1),
            (-1, -1),
            (-1, 1),
            (1, -1),
            (1, 1),
        ];
        assert(directions@ =~= queen_directions());
        let ghost from = (position.0 as int, position.1 as int);
        let mut i: usize = 0;
        while i < 8
            invariant
                i <= 8,
                position.0 < 8,
                position.1 < 8,
                from == (position.0 as int, position.1 as int),
                directions@ == queen_directions(),
                moves@ == slides(self@.pieces, from, queen.color, queen_directions(), i as nat),
            decreases 8 - i,
        {
            self.cast_ray(position, queen.color, directions[i], &mut moves);
            i += 1;
        }
        moves
    }

    /// The moves of whatever stands on `position`; none for an empty square.
    pub fn generate_intrinsic_moves(&self, position: (usize, usize)) -> (moves: Vec<Move>)
        requires
            position.0 < 8,
            position.1 < 8,
        ensures
            moves@ == intrinsic_moves(self@.pieces, (position.0 as int, position.1 as int)),
    {
        match self.get_piece_0(position.0, position.1) {
            None => Vec::new(),
            Some(piece) => match piece.piece_type {
                PieceType::Pawn => self.generate_intrinsic_pawn_moves(position),
                PieceType::Knight => self.generate_intrinsic_knight_moves(position),
                PieceType::Bishop => self.generate_intrinsic_bishop_moves(position),
                PieceType::Rook => self.generate_intrinsic_rook_moves(position),
                PieceType::King => self.generate_intrinsic_king_moves(position),
                PieceType::Queen => self.generate_intrinsic_queen_moves(position),
            },
        }
    }

    /// The move to `to_position` of the first piece of the side to move and
    /// of the given kind, in row-major order, that has one.
    pub fn infer_move(&self, to_position: (usize, usize), piece_type: PieceType) -> (found: Option<Move>)
        ensures
            found == inferred_move(self@.pieces, self@.active_color, piece_type, to_position, 64),
    {
        let color = self.turn();
        let mut n: usize = 0;
        while n < 64
            invariant
                n <= 64,
                color == self@.active_color,
                inferred_move(self@.pieces, color, piece_type, to_position, n as nat) is None,
            decreases 64 - n,
        {
            if let Some(piece) = self.get_piece_0(n / 8, n % 8) {
                if piece.color == color && piece_type == piece.piece_type {
                    let moves = self.generate_intrinsic_moves((n / 8, n % 8));
                    let mut k: usize = 0;
                    while k < moves.len()
                        invariant
                            n < 64,
                            k <= moves.len(),
                            color == self@.active_color,
                            self@.pieces.get(((n / 8) as int, (n % 8) as int)) == Some(piece),
                            piece.color == color,
                            piece.piece_type == piece_type,
                            moves@ == intrinsic_moves(
                                self@.pieces,
                                ((n / 8) as int, (n % 8) as int),
                            ),
                            inferred_move(self@.pieces, color, piece_type, to_position, n as nat) is None,
                            first_move_to(moves@, to_position, k as nat) is None,
                        decreases moves.len() - k,
                    {
                        let m = moves[k];
                        if m.to.0 == to_position.0 && m.to.1 == to_position.1 {
                            proof {
                                lemma_first_move_stays(moves@, to_position, (k + 1) as nat, moves@.len());
                                lemma_inferred_move_stays(
                                    self@.pieces,
                                    color,
                                    piece_type,
                                    to_position,
                                    (n + 1) as nat,
                                    64,
                                );
                            }
                            return Some(m);
                        }
                        k += 1;
                    }
                }
            }
            n += 1;
        }
        None
    }
}

} // verus!
