//! Carrying out a move or a castling on the board.

use crate::board::{square_index, ChessBoard, Position};
use crate::legality::{castling_rook_col, castling_row, may_castle};
use crate::text::{decimal, push_decimal};
use crate::types::{on_board, ChessMove, ChessMoveError, Color, Move, Piece, PieceType};
use vstd::prelude::*;

verus! {

/// The name of a kind of piece.
pub open spec fn kind_name(piece_type: PieceType) -> Seq<char> {
    match piece_type {
        PieceType::Pawn => "Pawn"@,
        PieceType::Knight => "Knight"@,
        PieceType::Bishop => "Bishop"@,
        PieceType::Rook => "Rook"@,
        PieceType::Queen => "Queen"@,
        PieceType::King => "King"@,
    }
}

/// The account of a move: who moved from where to where, and what was
/// captured there, if anything. For instance "Pawn at (6, 4) moves to (4, 4)"
/// or "Queen at (7, 3) captures Rook at (0, 3)".
pub open spec fn move_text(
    mover: PieceType,
    from: (usize, usize),
    to: (usize, usize),
    captured: Option<PieceType>,
) -> Seq<char> {
    let start = kind_name(mover) + " at ("@ + decimal(from.0 as nat) + ", "@ + decimal(
        from.1 as nat,
    );
    let middle = match captured {
        Some(taken) => start + ") captures "@ + kind_name(taken) + " at ("@,
        None => start + ") moves to ("@,
    };
    middle + decimal(to.0 as nat) + ", "@ + decimal(to.1 as nat) + ")"@
}

/// The account of a castling.
pub open spec fn castle_text(side: ChessMove) -> Seq<char> {
    if side == ChessMove::CastleKingside {
        "castles kingside"@
    } else {
        "castles queenside"@
    }
}

/// Why the move cannot be carried out, if it cannot: a square off the board,
/// no piece to move, or a piece of the side that is not to move.
pub open spec fn move_refusal(position: Position, mov: Move) -> Option<ChessMoveError> {
    if !on_board(mov.from.0 as int, mov.from.1 as int) || !on_board(
        mov.to.0 as int,
        mov.to.1 as int,
    ) {
        Some(ChessMoveError::OutOfBounds)
    } else {
        match position.pieces.get((mov.from.0 as int, mov.from.1 as int)) {
            None => Some(ChessMoveError::StartPieceMissing),
            Some(piece) => if piece.color != position.active_color {
                Some(ChessMoveError::WrongPieceColor)
            } else {
                None
            },
        }
    }
}

/// The highlighted squares that are left when side `color` moves: a move of
/// White wipes them all.
pub open spec fn wiped(highlighted: Map<usize, Color>, color: Color) -> Map<usize, Color> {
    if color == Color::White {
        Map::empty()
    } else {
        highlighted
    }
}

/// The count of completed moves after a move of side `color`.
pub open spec fn full_moves_after(full_moves: u32, color: Color) -> int {
    if color == Color::Black {
        full_moves + 1
    } else {
        full_moves as int
    }
}

/// The board after the piece on `mov.from` has gone to `mov.to`: the piece
/// stands there with one more move to its count, the square it left is
/// empty, the two squares are highlighted, the count of completed moves has
/// grown after a move of Black, and the other side is to move.
pub open spec fn position_after_move(position: Position, mov: Move) -> Position {
    let from = (mov.from.0 as int, mov.from.1 as int);
    let to = (mov.to.0 as int, mov.to.1 as int);
    let piece = position.pieces[from];
    let mover = position.active_color;
    Position {
        pieces: position.pieces.insert(to, Piece { moves: (piece.moves + 1) as u32, ..piece }).remove(
            from,
        ),
        active_color: mover.other(),
        half_moves: position.half_moves,
        full_moves: full_moves_after(position.full_moves, mover) as u32,
        passant_square: position.passant_square,
        highlighted: wiped(position.highlighted, mover).insert(
            square_index(from.0, from.1),
            mover,
        ).insert(square_index(to.0, to.1), mover),
    }
}

/// The column to which the king goes in a castling.
pub open spec fn castled_king_col(side: ChessMove) -> int {
    match side {
        ChessMove::CastleQueenside => 2,
        _ => 6,
    }
}

/// The column to which the rook goes in a castling.
pub open spec fn castled_rook_col(side: ChessMove) -> int {
    match side {
        ChessMove::CastleQueenside => 3,
        _ => 5,
    }
}

/// The board after side `color` has castled: king and rook stand on their
/// new squares, each with one move to its count, the four squares are
/// highlighted, the count of completed moves has grown after a castling of
/// Black, and the turn has passed on.
pub open spec fn position_after_castle(position: Position, color: Color, side: ChessMove) -> Position {
    let row = castling_row(color);
    let king = Piece { color, piece_type: PieceType::King, moves: 1 };
    let rook = Piece { color, piece_type: PieceType::Rook, moves: 1 };
    Position {
        pieces: position.pieces.remove((row, 4)).insert((row, castled_king_col(side)), king).remove(
            (row, castling_rook_col(side)),
        ).insert((row, castled_rook_col(side)), rook),
        active_color: position.active_color.other(),
        half_moves: position.half_moves,
        full_moves: full_moves_after(position.full_moves, color) as u32,
        passant_square: position.passant_square,
        highlighted: wiped(position.highlighted, color).insert(square_index(row, 4), color).insert(
            square_index(row, castled_king_col(side)),
            color,
        ).insert(square_index(row, castling_rook_col(side)), color).insert(
            square_index(row, castled_rook_col(side)),
            color,
        ),
    }
}

/// What becomes of a move: the account of it and the board after it, or
/// why it is refused.
pub open spec fn move_outcome(position: Position, mov: Move) -> Result<
    (Seq<char>, Position),
    ChessMoveError,
> {
    match move_refusal(position, mov) {
        Some(error) => Err(error),
        None => Ok(
            (
                move_text(
                    position.pieces[(mov.from.0 as int, mov.from.1 as int)].piece_type,
                    mov.from,
                    mov.to,
                    match position.pieces.get((mov.to.0 as int, mov.to.1 as int)) {
                        Some(taken) => Some(taken.piece_type),
                        None => None,
                    },
                ),
                position_after_move(position, mov),
            ),
        ),
    }
}

/// What becomes of a castling: the account of it and the board after it,
/// or its refusal where the side may not castle, pieces between king and
/// rook left aside.
pub open spec fn castle_outcome(position: Position, color: Color, side: ChessMove) -> Result<
    (Seq<char>, Position),
    ChessMoveError,
> {
    if may_castle(position.pieces, color, side, false) {
        Ok((castle_text(side), position_after_castle(position, color, side)))
    } else {
        Err(ChessMoveError::CastlingForbidden)
    }
}

/// Whether a call came out as described: with the account and the board
/// described, or with the error described and the board as it was.
pub open spec fn came_out(
    outcome: Result<String, ChessMoveError>,
    before: Position,
    after: Position,
    described: Result<(Seq<char>, Position), ChessMoveError>,
) -> bool {
    match described {
        Ok(done) => outcome is Ok && outcome->Ok_0@ == done.0 && after == done.1,
        Err(error) => outcome == Err::<String, ChessMoveError>(error) && after == before,
    }
}

/// Whether the counters have room for the move: the piece's count of moves
/// and, after a move of Black, the count of completed moves can each grow
/// by one.
pub open spec fn move_fits(position: Position, mov: Move) -> bool {
    move_refusal(position, mov) is None ==> {
        &&& position.pieces[(mov.from.0 as int, mov.from.1 as int)].moves < u32::MAX
        &&& full_moves_after(position.full_moves, position.active_color) <= u32::MAX
    }
}

/// Whether the count of completed moves has room for the castling.
pub open spec fn castle_fits(position: Position, color: Color, side: ChessMove) -> bool {
    may_castle(position.pieces, color, side, false) ==> full_moves_after(
        position.full_moves,
        color,
    ) <= u32::MAX
}

/// The name of a kind of piece.
pub fn kind_str(piece_type: PieceType) -> (name: &'static str)
    ensures
        name@ == kind_name(piece_type),
{
    match piece_type {
        PieceType::Pawn => "Pawn",
        PieceType::Knight => "Knight",
        PieceType::Bishop => "Bishop",
        PieceType::Rook => "Rook",
        PieceType::Queen => "Queen",
        PieceType::King => "King",
    }
}

/// Writes the account of a move.
pub fn describe_move(
    mover: PieceType,
    from: (usize, usize),
    to: (usize, usize),
    captured: Option<PieceType>,
) -> (s: String)
    ensures
        s@ == move_text(mover, from, to, captured),
{
    let mut s = String::new();
    s.append(kind_str(mover));
    s.append(" at (");
    push_decimal(&mut s, from.0 as u64);
    s.append(", ");
    push_decimal(&mut s, from.1 as u64);
    assert(s@ =~= kind_name(mover) + " at ("@ + decimal(from.0 as nat) + ", "@ + decimal(
        from.1 as nat,
    ));
    match captured {
        Some(taken) => {
            s.append(") captures ");
            s.append(kind_str(taken));
            s.append(" at (");
        },
        None => {
            s.append(") moves to (");
        },
    }
    push_decimal(&mut s, to.0 as u64);
    s.append(", ");
    push_decimal(&mut s, to.1 as u64);
    s.append(")");
    s
}

impl ChessBoard {
    /// Moves the piece on `mov.from` to `mov.to` and passes the turn on.
    ///
    /// The move is refused, and the board left as it was, where a square is
    /// off the board, where no piece stands on `mov.from`, and where that
    /// piece is not of the side to move.
    pub fn move_piece(&mut self, mov: Move) -> (outcome: Result<String, ChessMoveError>)
        requires
            move_fits(old(self)@, mov),
        ensures
            came_out(outcome, old(self)@, final(self)@, move_outcome(old(self)@, mov)),
            on_board(mov.from.0 as int, mov.from.1 as int) && on_board(
                mov.to.0 as int,
                mov.to.1 as int,
            ) && old(self)@.pieces.get((mov.from.0 as int, mov.from.1 as int)) is None ==> outcome
                == Err::<String, ChessMoveError>(ChessMoveError::StartPieceMissing) && final(self)@
                == old(self)@,
            outcome is Ok && mov.from != mov.to ==> final(self)@.pieces.get(
                (mov.to.0 as int, mov.to.1 as int),
            ) == Some(
                Piece {
                    moves: (old(self)@.pieces[(mov.from.0 as int, mov.from.1 as int)].moves
                        + 1) as u32,
                    ..old(self)@.pieces[(mov.from.0 as int, mov.from.1 as int)]
                },
            ),
            outcome is Ok ==> final(self)@.active_color == old(self)@.active_color.other(),
            outcome is Ok ==> final(self)@.full_moves == (if old(self)@.active_color
                == Color::Black {
                old(self)@.full_moves + 1
            } else {
                old(self)@.full_moves as int
            }),
    {
        let (from_x, from_y) = mov.from;
        let (to_x, to_y) = mov.to;
        if from_x >= 8 || from_y >= 8 || to_x >= 8 || to_y >= 8 {
            return Err(ChessMoveError::OutOfBounds);
        }
        let piece = match self.get_piece_0(from_x, from_y) {
            Some(p) => p,
            None => return Err(ChessMoveError::StartPieceMissing),
        };
        let mover = self.turn();
        if piece.color != mover {
            return Err(ChessMoveError::WrongPieceColor);
        }
        let captured = match self.get_piece_0(to_x, to_y) {
            Some(taken) => Some(taken.piece_type),
            None => None,
        };
        let action_str = describe_move(piece.piece_type, mov.from, mov.to, captured);

        self.put(to_x, to_y, Some(Piece { moves: piece.moves + 1, ..piece }));
        self.put(from_x, from_y, None);
        if mover == Color::White {
            self.clear_highlights();
        } else {
            let half = self.half_move_count();
            let full = self.full_move_count();
            self.set_counters(half, full + 1);
        }
        self.highlight(from_x, from_y, mover);
        self.highlight(to_x, to_y, mover);
        self.set_turn(mover.inverse());
        Ok(action_str)
    }

    /// Castles for side `color` on the given side, where `can_castle`
    /// allows it with pieces between king and rook left aside, and passes
    /// the turn on. Otherwise the board is left as it was.
    pub fn castle(&mut self, color: Color, castle_type: ChessMove) -> (outcome: Result<
        String,
        ChessMoveError,
    >)
        requires
            castle_fits(old(self)@, color, castle_type),
        ensures
            came_out(
                outcome,
                old(self)@,
                final(self)@,
                castle_outcome(old(self)@, color, castle_type),
            ),
    {
        let row: usize = match color {
            Color::White => 7,
            Color::Black => 0,
        };
        let king_col: usize = 4;
        let nw_king_col: usize;
        let rook_col: usize;
        let nw_rook_col: usize;
        match castle_type {
            ChessMove::CastleKingside => {
                nw_king_col = 6;
                rook_col = 7;
                nw_rook_col = 5;
            },
            ChessMove::CastleQueenside => {
                nw_king_col = 2;
                rook_col = 0;
                nw_rook_col = 3;
            },
            ChessMove::Simple => {
                return Err(ChessMoveError::CastlingForbidden);
            },
        }
        if !self.can_castle(color, castle_type, false) {
            return Err(ChessMoveError::CastlingForbidden);
        }
        let king = Piece { color, piece_type: PieceType::King, moves: 1 };
        let rook = Piece { color, piece_type: PieceType::Rook, moves: 1 };
        self.put(row, king_col, None);
        self.put(row, nw_king_col, Some(king));
        self.put(row, rook_col, None);
        self.put(row, nw_rook_col, Some(rook));
        if color == Color::White {
            self.clear_highlights();
        } else {
            let half = self.half_move_count();
            let full = self.full_move_count();
            self.set_counters(half, full + 1);
        }
        self.highlight(row, king_col, color);
        self.highlight(row, nw_king_col, color);
        self.highlight(row, rook_col, color);
        self.highlight(row, nw_rook_col, color);
        let mover = self.turn();
        self.set_turn(mover.inverse());
        let mut msg = String::new();
        if castle_type == ChessMove::CastleKingside {
            msg.append("castles kingside");
        } else {
            msg.append("castles queenside");
        }
        assert(msg@ =~= castle_text(castle_type));
        Ok(msg)
    }
}

} // verus!
