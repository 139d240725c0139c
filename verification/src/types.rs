//! Value types of the engine: colors, pieces, squares, moves and errors.

use vstd::prelude::*;

verus! {

/// Number of rows and of columns of the board.
pub const BOARD_SIZE: usize = 8;

/// The indices of the rows, and of the columns, of the board.
pub const BOARD_SIZE_RANGE_0: std::ops::Range<usize> = 0..BOARD_SIZE;

/// Column on which both kings start.
pub const DEFAULT_KING_COL: usize = 4;

/// Column on which the kingside rooks start.
pub const DEFAULT_KINGSIDE_ROOK_COL: usize = 7;

/// Column on which the queenside rooks start.
pub const DEFAULT_QUEENSIDE_ROOK_COL: usize = 0;

/// Why a piece of text could not be read.
#[derive(Debug, Clone, Copy, PartialEq, Eq, Structural)]
pub enum ParseError {
    EmptyString,
    StringTooShort,
    InvalidFENString,
    InvalidPosition,
    InvalidPositionRank,
    InvalidPositionFile,
    UselessMove,
    InvalidAlgebraicPosition,
}

/// The two sides.
#[derive(Debug, Clone, Copy, PartialEq, Eq, Structural)]
pub enum Color {
    White,
    Black,
}

impl Color {
    /// The other side.
    pub open spec fn other(&self) -> Color {
        match self {
            Color::White => Color::Black,
            Color::Black => Color::White,
        }
    }

    /// The other side.
    #[verifier::when_used_as_spec(other)]
    pub fn inverse(&self) -> (c: Color)
        ensures
            c == self.other(),
    {
        match self {
            Color::White => Color::Black,
            Color::Black => Color::White,
        }
    }
}

/// The text did not name a color.
#[derive(Debug, Clone, Copy, PartialEq, Eq, Structural)]
pub struct ParseColorError;

/// The six kinds of chess pieces.
#[derive(Debug, Clone, Copy, PartialEq, Eq, Structural)]
pub enum PieceType {
    Pawn,
    Knight,
    Bishop,
    Rook,
    Queen,
    King,
}

/// A piece: its side, its kind, and how many times it has been relocated.
///
/// Two pieces compare equal with `==` when side and kind agree; the move
/// counter takes no part in that comparison.
#[derive(Debug, Clone, Copy)]
pub struct Piece {
    pub color: Color,
    pub piece_type: PieceType,
    pub moves: u32,
}

/// A square of the board: what stands on it, and where it is.
///
/// `rank` runs from 1 to 8 and `file` from 'a' to 'h'; `row` and `col` are the
/// zero-based indices of the same square, row 0 being rank 8.
#[derive(Debug, Clone, Copy, PartialEq)]
pub struct Square {
    pub piece: Option<Piece>,
    pub rank: usize,
    pub file: char,
    pub row: usize,
    pub col: usize,
}

/// A square that display routines should highlight.
#[derive(Debug, Clone, Copy)]
pub struct HighlightedSquare {
    pub row: usize,
    pub col: usize,
    /// The side whose move touched the square.
    pub color: Color,
}

/// Which castlings are available, per side and direction.
#[derive(Debug, Clone, Copy)]
pub struct CastlingStatus {
    pub white_kingside: bool,
    pub white_queenside: bool,
    pub black_kingside: bool,
    pub black_queenside: bool,
    /// Whether the squares between king and rook were required to be empty.
    pub check_empty_rows: bool,
}

/// A relocation of one piece, or a castling marker on a king's move.
#[derive(Debug, Clone, Copy)]
pub struct Move {
    pub from: (usize, usize),
    pub to: (usize, usize),
    pub castling: bool,
}

/// The kind of a move as far as castling is concerned.
#[derive(Debug, Clone, Copy, PartialEq, Eq, Structural)]
pub enum ChessMove {
    Simple,
    CastleKingside,
    CastleQueenside,
}

/// Why a move was not carried out.
#[derive(Debug, Clone, Copy, PartialEq, Eq, Structural)]
pub enum ChessMoveError {
    OutOfBounds,
    StartPieceMissing,
    CastlingForbidden,
    WrongPieceColor,
    TooManyPossibleMoves,
}

/// Whether `(row, col)` names a square of the board.
pub open spec fn on_board(row: int, col: int) -> bool {
    0 <= row < 8 && 0 <= col < 8
}

/// The move from `from` to `to` that is no castling.
pub open spec fn step(from: (int, int), to: (int, int)) -> Move {
    Move { from: (from.0 as usize, from.1 as usize), to: (to.0 as usize, to.1 as usize), castling: false }
}

impl Piece {
    /// A piece that has not moved yet.
    pub fn new(color: Color, piece_type: PieceType) -> (p: Piece)
        ensures
            p == (Piece { color, piece_type, moves: 0 }),
    {
        Piece { color, piece_type, moves: 0 }
    }

    /// Whether two pieces agree in side and kind.
    pub open spec fn same_kind(self, other: Piece) -> bool {
        self.color == other.color && self.piece_type == other.piece_type
    }

    /// The piece's letter in FEN: upper case for White, lower case for Black.
    pub open spec fn fen_letter(&self) -> char {
        match self.color {
            Color::White => match self.piece_type {
                PieceType::Pawn => 'P',
                PieceType::Knight => 'N',
                PieceType::Bishop => 'B',
                PieceType::Rook => 'R',
                PieceType::Queen => 'Q',
                PieceType::King => 'K',
            },
            Color::Black => match self.piece_type {
                PieceType::Pawn => 'p',
                PieceType::Knight => 'n',
                PieceType::Bishop => 'b',
                PieceType::Rook => 'r',
                PieceType::Queen => 'q',
                PieceType::King => 'k',
            },
        }
    }

    /// The piece's letter in FEN.
    #[verifier::when_used_as_spec(fen_letter)]
    pub fn as_fen(&self) -> (c: char)
        ensures
            c == self.fen_letter(),
    {
        match self.color {
            Color::White => match self.piece_type {
                PieceType::Pawn => 'P',
                PieceType::Knight => 'N',
                PieceType::Bishop => 'B',
                PieceType::Rook => 'R',
                PieceType::Queen => 'Q',
                PieceType::King => 'K',
            },
            Color::Black => match self.piece_type {
                PieceType::Pawn => 'p',
                PieceType::Knight => 'n',
                PieceType::Bishop => 'b',
                PieceType::Rook => 'r',
                PieceType::Queen => 'q',
                PieceType::King => 'k',
            },
        }
    }

    /// The kind that a letter of algebraic notation names; any text other
    /// than "K", "Q", "R", "B" and "N" names a pawn.
    pub open spec fn kind_of_letter(p: Seq<char>) -> PieceType {
        if p == seq!['K'] {
            PieceType::King
        } else if p == seq!['Q'] {
            PieceType::Queen
        } else if p == seq!['R'] {
            PieceType::Rook
        } else if p == seq!['B'] {
            PieceType::Bishop
        } else if p == seq!['N'] {
            PieceType::Knight
        } else {
            PieceType::Pawn
        }
    }

    /// An unmoved piece of the kind that the letter `p` names.
    pub fn new_from_algebraic(color: Color, p: &str) -> (piece: Piece)
        ensures
            piece == (Piece { color, piece_type: Self::kind_of_letter(p@), moves: 0 }),
    {
        let piece_type = if p.unicode_len() != 1 {
            PieceType::Pawn
        } else {
            let c = p.get_char(0);
            assert(p@ =~= seq![c]);
            match c {
                'K' => PieceType::King,
                'Q' => PieceType::Queen,
                'R' => PieceType::Rook,
                'B' => PieceType::Bishop,
                'N' => PieceType::Knight,
                _ => PieceType::Pawn,
            }
        };
        Piece { color, moves: 0, piece_type }
    }

    /// The chess symbol of the piece.
    pub open spec fn symbol(&self) -> char {
        match self.color {
            Color::White => match self.piece_type {
                PieceType::King => '♔',
                PieceType::Queen => '♕',
                PieceType::Rook => '♖',
                PieceType::Bishop => '♗',
                PieceType::Knight => '♘',
                PieceType::Pawn => '♙',
            },
            Color::Black => match self.piece_type {
                PieceType::King => '♚',
                PieceType::Queen => '♛',
                PieceType::Rook => '♜',
                PieceType::Bishop => '♝',
                PieceType::Knight => '♞',
                PieceType::Pawn => '♟',
            },
        }
    }

    /// The chess symbol of the piece.
    #[verifier::when_used_as_spec(symbol)]
    pub fn to_unicode_symbol(&self) -> (c: char)
        ensures
            c == self.symbol(),
    {
        match self.color {
            Color::White => match self.piece_type {
                PieceType::King => '♔',
                PieceType::Queen => '♕',
                PieceType::Rook => '♖',
                PieceType::Bishop => '♗',
                PieceType::Knight => '♘',
                PieceType::Pawn => '♙',
            },
            Color::Black => match self.piece_type {
                PieceType::King => '♚',
                PieceType::Queen => '♛',
                PieceType::Rook => '♜',
                PieceType::Bishop => '♝',
                PieceType::Knight => '♞',
                PieceType::Pawn => '♟',
            },
        }
    }
}

impl Square {
    /// Whether nothing stands on the square.
    pub fn is_empty(&self) -> (b: bool)
        ensures
            b == (self.piece is None),
    {
        self.piece.is_none()
    }

    /// Whether a piece stands on the square.
    pub fn is_not_empty(&self) -> (b: bool)
        ensures
            b == (self.piece is Some),
    {
        self.piece.is_some()
    }

    /// Whether a piece of the given kind stands on the square.
    pub fn is(&self, piece_type: PieceType) -> (b: bool)
        ensures
            b == (self.piece is Some && self.piece->0.piece_type == piece_type),
    {
        match self.piece {
            Some(p) => p.piece_type == piece_type,
            None => false,
        }
    }

    /// Whether a piece stands on the square that has never been relocated.
    pub fn has_not_moved(&self) -> (b: bool)
        ensures
            b == (self.piece is Some && self.piece->0.moves == 0),
    {
        match self.piece {
            Some(p) => p.moves == 0,
            None => false,
        }
    }

    /// The FEN letter of the piece on the square, or a blank for none.
    pub fn as_fen(&self) -> (c: char)
        ensures
            c == (match self.piece {
                Some(p) => p.fen_letter(),
                None => ' ',
            }),
    {
        match self.piece {
            Some(p) => p.as_fen(),
            None => ' ',
        }
    }
}

impl Default for Square {
    fn default() -> (s: Square)
        ensures
            s == (Square { piece: None, rank: 0, file: '\0', row: 0, col: 0 }),
    {
        Square { piece: None, rank: 0, file: '\0', row: 0, col: 0 }
    }
}

impl Move {
    /// The move from `from` to `to` that is no castling.
    pub fn new(from: (usize, usize), to: (usize, usize)) -> (m: Move)
        ensures
            m == (Move { from, to, castling: false }),
    {
        Move { from, to, castling: false }
    }
}

} // verus!
