//! Colors, pieces and squares as short texts.

use crate::text::{decimal, push_decimal};
use crate::types::{Color, Piece, PieceType, Square};
use vstd::prelude::*;

verus! {

/// The letter of a side: "w" or "b".
pub open spec fn color_text(color: Color) -> Seq<char> {
    match color {
        Color::White => seq!['w'],
        Color::Black => seq!['b'],
    }
}

/// The name of a kind of piece in lower case.
pub open spec fn kind_text(piece_type: PieceType) -> Seq<char> {
    match piece_type {
        PieceType::Rook => "rook"@,
        PieceType::Bishop => "bishop"@,
        PieceType::Knight => "knight"@,
        PieceType::Pawn => "pawn"@,
        PieceType::Queen => "queen"@,
        PieceType::King => "king"@,
    }
}

/// A piece as text: the letter of its side, a blank, and its kind, such as
/// "w rook".
pub open spec fn piece_text(piece: Piece) -> Seq<char> {
    color_text(piece.color).push(' ') + kind_text(piece.piece_type)
}

/// A square as text: "-" where it is empty, else its rank and its file, such
/// as "8a".
pub open spec fn square_text(square: Square) -> Seq<char> {
    match square.piece {
        None => seq!['-'],
        Some(_) => decimal(square.rank as nat).push(square.file),
    }
}

impl Color {
    /// The letter of the side: "w" or "b".
    pub fn to_string(&self) -> (s: String)
        ensures
            s@ == color_text(*self),
    {
        let mut s = String::new();
        match self {
            Color::White => s.push('w'),
            Color::Black => s.push('b'),
        }
        assert(s@ =~= color_text(*self));
        s
    }
}

impl Piece {
    /// The piece as text, such as "w rook".
    pub fn to_string(&self) -> (s: String)
        ensures
            s@ == piece_text(*self),
    {
        let piece_name = match self.piece_type {
            PieceType::Rook => "rook",
            PieceType::Bishop => "bishop",
            PieceType::Knight => "knight",
            PieceType::Pawn => "pawn",
            PieceType::Queen => "queen",
            PieceType::King => "king",
        };
        let mut s = self.color.to_string();
        s.push(' ');
        s.append(piece_name);
        s
    }
}

impl Square {
    /// The square as text: "-" where it is empty, else rank and file.
    pub fn to_string(&self) -> (s: String)
        ensures
            s@ == square_text(*self),
    {
        let mut s = String::new();
        match self.piece {
            None => {
                s.push('-');
                assert(s@ =~= seq!['-']);
            },
            Some(_) => {
                push_decimal(&mut s, self.rank as u64);
                s.push(self.file);
                assert(s@ =~= decimal(self.rank as nat).push(self.file));
            },
        }
        s
    }
}

} // verus!
