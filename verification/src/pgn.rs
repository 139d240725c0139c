//! Moves as a game record names them: a kind of piece, a destination, and
//! at most a row or a column that tells two pieces of the kind apart.

use crate::apply::{came_out, castle_fits, castle_outcome, move_fits, move_outcome};
use crate::board::{ChessBoard, Position};
use crate::moves::intrinsic_moves;
use crate::notation::{col_of_file, file_to_col, ordinal_of_rank, rank_to_ordinal};
use crate::types::{ChessMove, ChessMoveError, Color, Move, Piece, PieceType};
use vstd::prelude::*;

verus! {

/// A move as a game record names it.
#[derive(Debug, Clone, Copy)]
pub struct PieceMove {
    /// The kind of the piece that moves.
    pub piece: PieceType,
    /// The side that moves.
    pub color: Color,
    /// The row of the destination.
    pub to_row: usize,
    /// The column of the destination.
    pub to_col: usize,
    /// The row from which the piece comes, where the record gives it.
    pub row_disambiguator: Option<usize>,
    /// The column from which the piece comes, where the record gives it.
    pub col_disambiguator: Option<usize>,
}

impl PieceMove {
    /// The move of a piece of the given kind and side to `(to_row, to_col)`,
    /// with nothing said of where it comes from.
    pub fn new(piece: PieceType, color: Color, to_row: usize, to_col: usize) -> (movement: PieceMove)
        ensures
            movement == (PieceMove {
                piece,
                color,
                to_row,
                to_col,
                row_disambiguator: None,
                col_disambiguator: None,
            }),
    {
        PieceMove { piece, color, to_row, to_col, row_disambiguator: None, col_disambiguator: None }
    }
}

/// The parts of which a record makes up a move.
#[derive(Debug, Clone, Copy, PartialEq, Eq, Structural)]
pub enum MovePart {
    /// The letter of the piece that moves; none is written for a pawn.
    Piece,
    /// A file letter or a rank digit that tells where the piece comes from.
    Disambiguator,
    /// The file letter of the destination.
    ToFile,
    /// The rank digit of the destination.
    ToRank,
}

/// The move that a record names once one more part of it is taken in, or
/// nothing where the text is not what the part asks for. A piece letter
/// sets the kind, any other text meaning a pawn; a file letter sets a
/// column, and a rank digit a row: rank 8 is row 0.
pub open spec fn part_applied(movement: PieceMove, part: MovePart, text: Seq<char>) -> Option<
    PieceMove,
> {
    match part {
        MovePart::Piece => Some(PieceMove { piece: Piece::kind_of_letter(text), ..movement }),
        MovePart::Disambiguator => if text.len() == 0 {
            None
        } else if col_of_file(text[0]) is Some {
            Some(PieceMove { col_disambiguator: col_of_file(text[0]), ..movement })
        } else if ordinal_of_rank(text[0]) is Some {
            Some(
                PieceMove {
                    row_disambiguator: Some((7 - ordinal_of_rank(text[0])->0) as usize),
                    ..movement
                },
            )
        } else {
            None
        },
        MovePart::ToFile => if text.len() > 0 && col_of_file(text[0]) is Some {
            Some(PieceMove { to_col: col_of_file(text[0])->0, ..movement })
        } else {
            None
        },
        MovePart::ToRank => if text.len() == 1 && ordinal_of_rank(text[0]) is Some {
            Some(PieceMove { to_row: (7 - ordinal_of_rank(text[0])->0) as usize, ..movement })
        } else {
            None
        },
    }
}

impl PieceMove {
    /// Takes one more part of a record into the move.
    pub fn with_part(self, part: MovePart, text: &str) -> (outcome: Option<PieceMove>)
        ensures
            outcome == part_applied(self, part, text@),
    {
        let mut movement = self;
        match part {
            MovePart::Piece => {
                movement.piece = Piece::new_from_algebraic(self.color, text).piece_type;
            },
            MovePart::Disambiguator => {
                if text.unicode_len() == 0 {
                    return None;
                }
                let c = text.get_char(0);
                match file_to_col(c) {
                    Some(col) => {
                        movement.col_disambiguator = Some(col);
                    },
                    None => match rank_to_ordinal(c) {
                        Some(n) => {
                            movement.row_disambiguator = Some(7 - n);
                        },
                        None => {
                            return None;
                        },
                    },
                }
            },
            MovePart::ToFile => {
                if text.unicode_len() == 0 {
                    return None;
                }
                match file_to_col(text.get_char(0)) {
                    Some(col) => {
                        movement.to_col = col;
                    },
                    None => {
                        return None;
                    },
                }
            },
            MovePart::ToRank => {
                if text.unicode_len() != 1 {
                    return None;
                }
                match rank_to_ordinal(text.get_char(0)) {
                    Some(n) => {
                        movement.to_row = 7 - n;
                    },
                    None => {
                        return None;
                    },
                }
            },
        }
        Some(movement)
    }
}

/// Whether the piece on `at` can be the one that the record means: it is of
/// the kind and side named, and stands on the row and the column that the
/// record gives, as far as it gives them.
pub open spec fn is_candidate(
    pieces: Map<(int, int), Piece>,
    movement: PieceMove,
    at: (int, int),
) -> bool {
    &&& pieces.get(at) is Some
    &&& pieces[at].piece_type == movement.piece
    &&& pieces[at].color == movement.color
    &&& movement.row_disambiguator is Some ==> at.0 == movement.row_disambiguator->0
    &&& movement.col_disambiguator is Some ==> at.1 == movement.col_disambiguator->0
}

/// Those of the first `n` moves of a list that end on `to`, in order.
pub open spec fn moves_ending_on(moves: Seq<Move>, to: (usize, usize), n: nat) -> Seq<Move>
    decreases n,
{
    if n == 0 {
        Seq::empty()
    } else {
        let rest = moves_ending_on(moves, to, (n - 1) as nat);
        if moves[n - 1].to == to {
            rest.push(moves[n - 1])
        } else {
            rest
        }
    }
}

/// The moves to the destination that the candidates on the first `n`
/// squares, in row-major order, can make.
pub open spec fn candidate_moves(pieces: Map<(int, int), Piece>, movement: PieceMove, n: nat) -> Seq<
    Move,
>
    decreases n,
{
    if n == 0 {
        Seq::empty()
    } else {
        let rest = candidate_moves(pieces, movement, (n - 1) as nat);
        let at = ((n - 1) / 8, (n - 1) % 8);
        if is_candidate(pieces, movement, at) {
            rest + moves_ending_on(
                intrinsic_moves(pieces, at),
                (movement.to_row, movement.to_col),
                intrinsic_moves(pieces, at).len(),
            )
        } else {
            rest
        }
    }
}

/// The move that the record means: the one move to the destination that a
/// candidate can make. With no such move the piece is missing; with more
/// than one the record does not tell which is meant.
pub open spec fn resolved_move(pieces: Map<(int, int), Piece>, movement: PieceMove) -> Result<
    Move,
    ChessMoveError,
> {
    let found = candidate_moves(pieces, movement, 64);
    if found.len() == 0 {
        Err(ChessMoveError::StartPieceMissing)
    } else if found.len() == 1 {
        Ok(found[0])
    } else {
        Err(ChessMoveError::TooManyPossibleMoves)
    }
}

/// What becomes of a move that a record names: what becomes of the move
/// that it is resolved to, or why it is not resolved.
pub open spec fn play_outcome(position: Position, movement: PieceMove) -> Result<
    (Seq<char>, Position),
    ChessMoveError,
> {
    match resolved_move(position.pieces, movement) {
        Ok(mov) => move_outcome(position, mov),
        Err(error) => Err(error),
    }
}

/// Whether the counters have room for the move that a record names.
pub open spec fn play_fits(position: Position, movement: PieceMove) -> bool {
    resolved_move(position.pieces, movement) is Ok ==> move_fits(
        position,
        resolved_move(position.pieces, movement)->Ok_0,
    )
}

/// One entry of a game record.
#[derive(Debug, Clone, Copy)]
pub enum CompleteMove {
    /// A piece moves.
    Piece(PieceMove),
    /// The side castles kingside.
    CastleKingside,
    /// The side castles queenside.
    CastleQueenside,
    /// Anything else: nothing happens on the board.
    Other,
}

/// The move that an entry names for the side that makes it.
pub open spec fn move_of_side(movement: PieceMove, color: Color) -> PieceMove {
    PieceMove { color, ..movement }
}

/// What becomes of an entry of a game record that side `color` makes.
pub open spec fn entry_outcome(position: Position, color: Color, entry: CompleteMove) -> Result<
    (Seq<char>, Position),
    ChessMoveError,
> {
    match entry {
        CompleteMove::Piece(movement) => play_outcome(position, move_of_side(movement, color)),
        CompleteMove::CastleKingside => castle_outcome(position, color, ChessMove::CastleKingside),
        CompleteMove::CastleQueenside => castle_outcome(
            position,
            color,
            ChessMove::CastleQueenside,
        ),
        CompleteMove::Other => Ok((Seq::empty(), position)),
    }
}

/// Whether the counters have room for an entry of a game record.
pub open spec fn entry_fits(position: Position, color: Color, entry: CompleteMove) -> bool {
    match entry {
        CompleteMove::Piece(movement) => play_fits(position, move_of_side(movement, color)),
        CompleteMove::CastleKingside => castle_fits(position, color, ChessMove::CastleKingside),
        CompleteMove::CastleQueenside => castle_fits(position, color, ChessMove::CastleQueenside),
        CompleteMove::Other => true,
    }
}

impl ChessBoard {
    /// Finds the move that a record names.
    pub fn resolve_move(&self, movement: &PieceMove) -> (outcome: Result<Move, ChessMoveError>)
        ensures
            outcome == resolved_move(self@.pieces, *movement),
    {
        let mut found: Vec<Move> = Vec::new();
        let mut n: usize = 0;
        while n < 64
            invariant
                n <= 64,
                found@ == candidate_moves(self@.pieces, *movement, n as nat),
            decreases 64 - n,
        {
            let row: usize = n / 8;
            let col: usize = n % 8;
            let on_row = match movement.row_disambiguator {
                Some(r) => r == row,
                None => true,
            };
            let on_col = match movement.col_disambiguator {
                Some(c) => c == col,
                None => true,
            };
            if let Some(piece) = self.get_piece_0(row, col) {
                if piece.piece_type == movement.piece && piece.color == movement.color && on_row
                    && on_col {
                    let moves = self.generate_intrinsic_moves((row, col));
                    let ghost before = found@;
                    let mut k: usize = 0;
                    while k < moves.len()
                        invariant
                            k <= moves.len(),
                            found@ == before + moves_ending_on(
                                moves@,
                                (movement.to_row, movement.to_col),
                                k as nat,
                            ),
                        decreases moves.len() - k,
                    {
                        let m = moves[k];
                        if m.to.0 == movement.to_row && m.to.1 == movement.to_col {
                            found.push(m);
                        }
                        k += 1;
                        assert(found@ =~= before + moves_ending_on(
                            moves@,
                            (movement.to_row, movement.to_col),
                            k as nat,
                        ));
                    }
                }
            }
            n += 1;
        }
        if found.len() == 0 {
            Err(ChessMoveError::StartPieceMissing)
        } else if found.len() == 1 {
            Ok(found[0])
        } else {
            Err(ChessMoveError::TooManyPossibleMoves)
        }
    }

    /// Carries out the move that a record names: finds it, and moves the
    /// piece as `move_piece` does. The board is left as it was where the move
    /// is not found or is refused.
    pub fn play_move(&mut self, movement: &PieceMove) -> (outcome: Result<String, ChessMoveError>)
        requires
            play_fits(old(self)@, *movement),
        ensures
            came_out(outcome, old(self)@, final(self)@, play_outcome(old(self)@, *movement)),
    {
        match self.resolve_move(movement) {
            Err(error) => Err(error),
            Ok(mov) => self.move_piece(mov),
        }
    }

    /// Carries out one entry of a game record for side `player_color`: a
    /// move of a piece, a castling, or nothing for anything else.
    pub fn process_complete_move(&mut self, player_color: Color, entry: &CompleteMove) -> (outcome:
        Result<String, ChessMoveError>)
        requires
            entry_fits(old(self)@, player_color, *entry),
        ensures
            came_out(
                outcome,
                old(self)@,
                final(self)@,
                entry_outcome(old(self)@, player_color, *entry),
            ),
    {
        match entry {
            CompleteMove::Piece(movement) => {
                let movement = PieceMove {
                    piece: movement.piece,
                    color: player_color,
                    to_row: movement.to_row,
                    to_col: movement.to_col,
                    row_disambiguator: movement.row_disambiguator,
                    col_disambiguator: movement.col_disambiguator,
                };
                self.play_move(&movement)
            },
            CompleteMove::CastleKingside => self.castle(player_color, ChessMove::CastleKingside),
            CompleteMove::CastleQueenside => self.castle(player_color, ChessMove::CastleQueenside),
            CompleteMove::Other => Ok(String::new()),
        }
    }
}

} // verus!
