//! A chess rules engine: the board, the moves of each piece, check and
//! castling, and the board's text form.

pub mod apply;
pub mod board;
pub mod display;
pub mod equality;
pub mod fen;
pub mod fen_laws;
pub mod legality;
pub mod moves;
pub mod moves_laws;
pub mod notation;
pub mod pgn;
pub mod render;
pub mod squares;
pub mod text;
pub mod types;

pub use crate::board::{ChessBoard, Position};
pub use crate::fen::{BoardAsFEN, FENStringParsing, INITIAL_FEN_BOARD};
pub use crate::notation::{
    c_file_to_index, color_from_str, file_to_col, move_from_str, pos_from_str, rank_to_index,
    rank_to_ordinal, File2Index, Rank2Index,
};
pub use crate::pgn::{CompleteMove, MovePart, PieceMove};
pub use crate::types::{
    CastlingStatus, ChessMove, ChessMoveError, Color, HighlightedSquare, Move, ParseColorError,
    ParseError, Piece, PieceType, Square, BOARD_SIZE, BOARD_SIZE_RANGE_0,
    DEFAULT_KINGSIDE_ROOK_COL, DEFAULT_KING_COL, DEFAULT_QUEENSIDE_ROOK_COL,
};
