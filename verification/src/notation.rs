//! Algebraic notation: file letters, rank digits, squares such as "e4" and
//! moves such as "e2e4", read as ASCII bytes.

use crate::types::{Color, Move, ParseColorError, ParseError};
use std::str::FromStr;
use vstd::prelude::*;
use vstd::string::StringSliceAdditionalSpecFns;

verus! {

/// Whether the byte is a file letter, 'a' to 'h'.
pub open spec fn is_file_byte(b: u8) -> bool {
    97 <= b <= 104
}

/// Whether the byte is a rank digit, '1' to '8'.
pub open spec fn is_rank_byte(b: u8) -> bool {
    49 <= b <= 56
}

/// The square that a file letter and a rank digit name, as (row, col):
/// rank 8 is row 0, file 'a' is column 0.
pub open spec fn square_of_bytes(file: u8, rank: u8) -> (usize, usize) {
    ((7 - (rank - 49)) as usize, (file - 97) as usize)
}

/// What a two-byte square such as "e4" denotes, or which of its parts is wrong.
pub open spec fn parse_square(text: Seq<u8>) -> Result<(usize, usize), ParseError> {
    if text.len() != 2 {
        Err(ParseError::StringTooShort)
    } else if !is_file_byte(text[0]) {
        Err(ParseError::InvalidPositionFile)
    } else if !is_rank_byte(text[1]) {
        Err(ParseError::InvalidPositionRank)
    } else {
        Ok(square_of_bytes(text[0], text[1]))
    }
}

/// What a four-byte move such as "e2e4" denotes, or which of its parts is
/// wrong. Both files are looked at before either rank, and a move that ends
/// where it starts is no move.
pub open spec fn parse_move(text: Seq<u8>) -> Result<Move, ParseError> {
    if text.len() != 4 {
        Err(ParseError::StringTooShort)
    } else if !is_file_byte(text[0]) || !is_file_byte(text[2]) {
        Err(ParseError::InvalidPositionFile)
    } else if !is_rank_byte(text[1]) || !is_rank_byte(text[3]) {
        Err(ParseError::InvalidPositionRank)
    } else if square_of_bytes(text[0], text[1]) == square_of_bytes(text[2], text[3]) {
        Err(ParseError::UselessMove)
    } else {
        Ok(
            Move {
                from: square_of_bytes(text[0], text[1]),
                to: square_of_bytes(text[2], text[3]),
                castling: false,
            },
        )
    }
}

/// The zero-based row of a rank: rank 8 is row 0, rank 1 is row 7.
pub fn rank_to_index(rank: usize) -> (row: usize)
    requires
        1 <= rank <= 8,
    ensures
        row == 8 - rank,
{
    8 - rank
}

/// The zero-based column of a file: 'a' is column 0, 'h' is column 7.
pub fn c_file_to_index(file: &char) -> (col: usize)
    requires
        'a' <= *file <= 'h',
    ensures
        col == *file as int - 'a' as int,
{
    match *file {
        'a' => 0,
        'b' => 1,
        'c' => 2,
        'd' => 3,
        'e' => 4,
        'f' => 5,
        'g' => 6,
        _ => 7,
    }
}

/// The zero-based column of a file letter, if it is one.
pub open spec fn col_of_file(file: char) -> Option<usize> {
    if 'a' <= file <= 'h' {
        Some((file as int - 'a' as int) as usize)
    } else {
        None
    }
}

/// The position of a rank digit among '1' to '8', counted from zero, if it
/// is one.
pub open spec fn ordinal_of_rank(rank: char) -> Option<usize> {
    if '1' <= rank <= '8' {
        Some((rank as int - '1' as int) as usize)
    } else {
        None
    }
}

/// The zero-based column of a file letter; any other character is refused.
pub fn file_to_col(file: char) -> (col: Option<usize>)
    ensures
        col == col_of_file(file),
{
    match file {
        'a' => Some(0),
        'b' => Some(1),
        'c' => Some(2),
        'd' => Some(3),
        'e' => Some(4),
        'f' => Some(5),
        'g' => Some(6),
        'h' => Some(7),
        _ => None,
    }
}

/// The position of a rank digit among '1' to '8', counted from zero; any
/// other character is refused.
pub fn rank_to_ordinal(rank: char) -> (n: Option<usize>)
    ensures
        n == ordinal_of_rank(rank),
{
    match rank {
        '1' => Some(0),
        '2' => Some(1),
        '3' => Some(2),
        '4' => Some(3),
        '5' => Some(4),
        '6' => Some(5),
        '7' => Some(6),
        '8' => Some(7),
        _ => None,
    }
}

/// What is said of a character that is no file letter.
pub open spec fn file_complaint(c: char) -> Seq<char> {
    "File must be a letter between a and h, you provided "@.push(c)
}

/// What is said of a character that is no rank digit.
pub open spec fn rank_complaint(c: char) -> Seq<char> {
    "Rank must be a digit between 1 and 8, you provided "@.push(c)
}

/// What a file letter denotes: its zero-based column, or a complaint.
pub open spec fn file_index_of(c: char) -> Result<usize, Seq<char>> {
    match col_of_file(c) {
        Some(col) => Ok(col),
        None => Err(file_complaint(c)),
    }
}

/// What a rank digit denotes: its place among '1' to '8', counted from
/// zero, or a complaint.
pub open spec fn rank_index_of(c: char) -> Result<usize, Seq<char>> {
    match ordinal_of_rank(c) {
        Some(n) => Ok(n),
        None => Err(rank_complaint(c)),
    }
}

/// Whether an outcome with a text for its error is the one described.
pub open spec fn index_outcome_is(outcome: Result<usize, String>, described: Result<usize, Seq<char>>) -> bool {
    match outcome {
        Ok(n) => described == Ok::<usize, Seq<char>>(n),
        Err(complaint) => described == Err::<usize, Seq<char>>(complaint@),
    }
}

/// Text that begins with a file letter.
pub trait File2Index {
    /// The character that is read, if there is one.
    spec fn file_char(&self) -> Option<char>;

    /// The zero-based column of the file letter.
    fn file_to_zero_base_index(&self) -> (outcome: Result<usize, String>)
        requires
            self.file_char() is Some,
        ensures
            index_outcome_is(outcome, file_index_of(self.file_char()->0)),
    ;
}

impl File2Index for char {
    open spec fn file_char(&self) -> Option<char> {
        Some(*self)
    }

    fn file_to_zero_base_index(&self) -> (outcome: Result<usize, String>) {
        match file_to_col(*self) {
            Some(col) => Ok(col),
            None => {
                let mut complaint = String::new();
                complaint.append("File must be a letter between a and h, you provided ");
                complaint.push(*self);
                assert(complaint@ =~= file_complaint(*self));
                Err(complaint)
            },
        }
    }
}

impl File2Index for str {
    open spec fn file_char(&self) -> Option<char> {
        if self@.len() > 0 {
            Some(self@[0])
        } else {
            None
        }
    }

    fn file_to_zero_base_index(&self) -> (outcome: Result<usize, String>) {
        self.get_char(0).file_to_zero_base_index()
    }
}

/// Text that begins with a rank digit.
pub trait Rank2Index {
    /// The character that is read, if there is one.
    spec fn rank_char(&self) -> Option<char>;

    /// The place of the rank digit among '1' to '8', counted from zero.
    fn rank_to_zero_base_index(&self) -> (outcome: Result<usize, String>)
        requires
            self.rank_char() is Some,
        ensures
            index_outcome_is(outcome, rank_index_of(self.rank_char()->0)),
    ;
}

impl Rank2Index for char {
    open spec fn rank_char(&self) -> Option<char> {
        Some(*self)
    }

    fn rank_to_zero_base_index(&self) -> (outcome: Result<usize, String>) {
        match rank_to_ordinal(*self) {
            Some(n) => Ok(n),
            None => {
                let mut complaint = String::new();
                complaint.append("Rank must be a digit between 1 and 8, you provided ");
                complaint.push(*self);
                assert(complaint@ =~= rank_complaint(*self));
                Err(complaint)
            },
        }
    }
}

impl Rank2Index for str {
    open spec fn rank_char(&self) -> Option<char> {
        if self@.len() > 0 {
            Some(self@[0])
        } else {
            None
        }
    }

    fn rank_to_zero_base_index(&self) -> (outcome: Result<usize, String>) {
        self.get_char(0).rank_to_zero_base_index()
    }
}

/// Reads a square in algebraic notation, such as "e4", into (row, col).
pub fn pos_from_str(s: &str) -> (r: Result<(usize, usize), ParseError>)
    ensures
        r == parse_square(s.spec_bytes()),
{
    let sb = s.as_bytes();
    if sb.len() != 2 {
        return Err(ParseError::StringTooShort);
    }
    if !(97 <= sb[0] && sb[0] <= 104) {
        return Err(ParseError::InvalidPositionFile);
    }
    if !(49 <= sb[1] && sb[1] <= 56) {
        return Err(ParseError::InvalidPositionRank);
    }
    Ok((7 - (sb[1] - 49) as usize, (sb[0] - 97) as usize))
}

/// Reads a move in coordinate notation, such as "e2e4".
pub fn move_from_str(s: &str) -> (r: Result<Move, ParseError>)
    ensures
        r == parse_move(s.spec_bytes()),
{
    let sb = s.as_bytes();
    if sb.len() != 4 {
        return Err(ParseError::StringTooShort);
    }
    if !(97 <= sb[0] && sb[0] <= 104) || !(97 <= sb[2] && sb[2] <= 104) {
        return Err(ParseError::InvalidPositionFile);
    }
    if !(49 <= sb[1] && sb[1] <= 56) || !(49 <= sb[3] && sb[3] <= 56) {
        return Err(ParseError::InvalidPositionRank);
    }
    let from = (7 - (sb[1] - 49) as usize, (sb[0] - 97) as usize);
    let to = (7 - (sb[3] - 49) as usize, (sb[2] - 97) as usize);
    if from.0 == to.0 && from.1 == to.1 {
        return Err(ParseError::UselessMove);
    }
    Ok(Move { from, to, castling: false })
}

impl FromStr for Move {
    type Err = ParseError;

    fn from_str(s: &str) -> (r: Result<Move, ParseError>)
        ensures
            r == parse_move(s.spec_bytes()),
    {
        move_from_str(s)
    }
}

/// The side that a text names by its first byte: 'w' or 'W' for White, 'b'
/// or 'B' for Black.
pub open spec fn parse_color(text: Seq<u8>) -> Result<Color, ParseColorError> {
    if text.len() == 0 {
        Err(ParseColorError)
    } else if text[0] == 119 || text[0] == 87 {
        Ok(Color::White)
    } else if text[0] == 98 || text[0] == 66 {
        Ok(Color::Black)
    } else {
        Err(ParseColorError)
    }
}

/// Reads a side from a text such as "w", "White" or "black".
pub fn color_from_str(s: &str) -> (r: Result<Color, ParseColorError>)
    ensures
        r == parse_color(s.spec_bytes()),
{
    let sb = s.as_bytes();
    if sb.len() == 0 {
        return Err(ParseColorError);
    }
    let first: u8 = sb[0];
    if first == 119 || first == 87 {
        Ok(Color::White)
    } else if first == 98 || first == 66 {
        Ok(Color::Black)
    } else {
        Err(ParseColorError)
    }
}

impl FromStr for Color {
    type Err = ParseColorError;

    fn from_str(s: &str) -> (r: Result<Color, ParseColorError>)
        ensures
            r == parse_color(s.spec_bytes()),
    {
        color_from_str(s)
    }
}

} // verus!
