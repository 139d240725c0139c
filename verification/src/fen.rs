//! Forsyth-Edwards Notation: a board as one line of text, and back.
//!
//! A line has six fields separated by single blanks: the placement of the
//! pieces, the side to move, the castling rights, the en-passant target, and
//! the two move counters. The placement lists the ranks from 8 down to 1,
//! separated by '/'; in a rank, a letter stands for a piece and a digit for
//! that many empty squares.

use crate::board::{square_of, ChessBoard, Position};
use crate::legality::castling_text;
use crate::text::{decimal, digit_char, digit_to_char, push_decimal};
use crate::types::{on_board, Color, ParseError, Piece, PieceType, Square};
use std::str::FromStr;
use vstd::prelude::*;

verus! {

/// The board at the start of a game.
pub const INITIAL_FEN_BOARD: &'static str = "rnbqkbnr/pppppppp/8/8/8/8/PPPPPPPP/RNBQKBNR w - - 0 0";

/// The fields of a text that `sep` separates: one more than the number of
/// times `sep` occurs.
pub open spec fn split(text: Seq<char>, sep: char) -> Seq<Seq<char>>
    decreases text.len(),
{
    if text.len() == 0 {
        seq![Seq::empty()]
    } else {
        let before = split(text.drop_last(), sep);
        if text.last() == sep {
            before.push(Seq::empty())
        } else {
            before.update(before.len() - 1, before.last().push(text.last()))
        }
    }
}

/// The unmoved piece that a FEN letter names.
pub open spec fn piece_of_letter(c: char) -> Option<Piece> {
    if c == 'P' {
        Some(Piece { color: Color::White, piece_type: PieceType::Pawn, moves: 0 })
    } else if c == 'N' {
        Some(Piece { color: Color::White, piece_type: PieceType::Knight, moves: 0 })
    } else if c == 'B' {
        Some(Piece { color: Color::White, piece_type: PieceType::Bishop, moves: 0 })
    } else if c == 'R' {
        Some(Piece { color: Color::White, piece_type: PieceType::Rook, moves: 0 })
    } else if c == 'Q' {
        Some(Piece { color: Color::White, piece_type: PieceType::Queen, moves: 0 })
    } else if c == 'K' {
        Some(Piece { color: Color::White, piece_type: PieceType::King, moves: 0 })
    } else if c == 'p' {
        Some(Piece { color: Color::Black, piece_type: PieceType::Pawn, moves: 0 })
    } else if c == 'n' {
        Some(Piece { color: Color::Black, piece_type: PieceType::Knight, moves: 0 })
    } else if c == 'b' {
        Some(Piece { color: Color::Black, piece_type: PieceType::Bishop, moves: 0 })
    } else if c == 'r' {
        Some(Piece { color: Color::Black, piece_type: PieceType::Rook, moves: 0 })
    } else if c == 'q' {
        Some(Piece { color: Color::Black, piece_type: PieceType::Queen, moves: 0 })
    } else if c == 'k' {
        Some(Piece { color: Color::Black, piece_type: PieceType::King, moves: 0 })
    } else {
        None
    }
}

/// The number of empty squares that a digit from '1' to '8' stands for.
pub open spec fn run_of_digit(c: char) -> Option<nat> {
    if '1' <= c <= '8' {
        Some((c as int - '0' as int) as nat)
    } else {
        None
    }
}

/// That many empty squares.
pub open spec fn empty_run(n: nat) -> Seq<Option<Piece>> {
    Seq::new(n, |i: int| None)
}

/// The squares that the text of a rank describes, from file 'a' on; nothing
/// where a character is neither a piece letter nor a digit from '1' to '8'.
pub open spec fn rank_squares(text: Seq<char>) -> Option<Seq<Option<Piece>>>
    decreases text.len(),
{
    if text.len() == 0 {
        Some(Seq::empty())
    } else {
        match rank_squares(text.drop_last()) {
            None => None,
            Some(row) => match piece_of_letter(text.last()) {
                Some(p) => Some(row.push(Some(p))),
                None => match run_of_digit(text.last()) {
                    Some(n) => Some(row + empty_run(n)),
                    None => None,
                },
            },
        }
    }
}

/// Whether the text of a rank describes exactly eight squares.
pub open spec fn is_rank(text: Seq<char>) -> bool {
    rank_squares(text) is Some && rank_squares(text)->0.len() == 8
}

/// The pieces that the placement field describes: eight ranks of eight
/// squares, rank 8 first.
pub open spec fn placement_of(field: Seq<char>) -> Option<Map<(int, int), Piece>> {
    let ranks = split(field, '/');
    if ranks.len() == 8 && (forall|r: int| 0 <= r < 8 ==> is_rank(#[trigger] ranks[r])) {
        Some(
            Map::new(
                |k: (int, int)| on_board(k.0, k.1) && rank_squares(ranks[k.0])->0[k.1] is Some,
                |k: (int, int)| rank_squares(ranks[k.0])->0[k.1]->0,
            ),
        )
    } else {
        None
    }
}

/// The side that the turn field names: "w" or "b".
pub open spec fn turn_of(field: Seq<char>) -> Option<Color> {
    if field == seq!['w'] {
        Some(Color::White)
    } else if field == seq!['b'] {
        Some(Color::Black)
    } else {
        None
    }
}

/// Whether a character may stand in the castling field.
pub open spec fn is_castling_char(c: char) -> bool {
    c == 'K' || c == 'Q' || c == 'k' || c == 'q' || c == '-'
}

/// Whether the field is a castling field: one character or more, each of
/// "KQkq-".
pub open spec fn is_castling_field(field: Seq<char>) -> bool {
    field.len() >= 1 && forall|i: int| 0 <= i < field.len() ==> is_castling_char(#[trigger] field[i])
}

/// The en-passant target that the field names: none for "-", else the
/// square, as (row, col), that a file letter and a rank digit name.
pub open spec fn passant_of(field: Seq<char>) -> Option<Option<(int, int)>> {
    if field == seq!['-'] {
        Some(None)
    } else if field.len() == 2 && 'a' <= field[0] <= 'h' && '1' <= field[1] <= '8' {
        Some(Some(('8' as int - field[1] as int, field[0] as int - 'a' as int)))
    } else {
        None
    }
}

/// The number that a run of decimal digits denotes; nothing for an empty
/// text or one with another character in it.
pub open spec fn number_of(text: Seq<char>) -> Option<nat>
    decreases text.len(),
{
    if text.len() == 0 || !('0' <= text.last() <= '9') {
        None
    } else if text.len() == 1 {
        Some((text.last() as int - '0' as int) as nat)
    } else {
        match number_of(text.drop_last()) {
            Some(n) => Some((n * 10 + (text.last() as int - '0' as int)) as nat),
            None => None,
        }
    }
}

/// The counter that a field denotes: a number that fits in 32 bits.
pub open spec fn counter_of(field: Seq<char>) -> Option<u32> {
    match number_of(field) {
        Some(n) => if n <= u32::MAX {
            Some(n as u32)
        } else {
            None
        },
        None => None,
    }
}

/// The board that a line of FEN describes, or nothing where the line is not
/// well formed. The castling field is checked and otherwise left aside: the
/// rights follow from where kings and rooks stand. No piece has moved yet
/// and no square is highlighted.
pub open spec fn fen_position(text: Seq<char>) -> Option<Position> {
    let fields = split(text, ' ');
    if fields.len() == 6 && placement_of(fields[0]) is Some && turn_of(fields[1]) is Some
        && is_castling_field(fields[2]) && passant_of(fields[3]) is Some && counter_of(fields[4])
        is Some && counter_of(fields[5]) is Some {
        let pieces = placement_of(fields[0])->0;
        Some(
            Position {
                pieces,
                active_color: turn_of(fields[1])->0,
                half_moves: counter_of(fields[4])->0,
                full_moves: counter_of(fields[5])->0,
                passant_square: match passant_of(fields[3])->0 {
                    Some(at) => Some(square_of(pieces, at.0, at.1)),
                    None => None,
                },
                highlighted: Map::empty(),
            },
        )
    } else {
        None
    }
}

/// The digit for a run of empty squares, appended to a text; nothing is
/// appended for a run of none.
pub open spec fn with_run(text: Seq<char>, run: nat) -> Seq<char> {
    if run == 0 {
        text
    } else {
        text.push(digit_char(run as int))
    }
}

/// The empty squares at the end of the first `n` squares of a row.
pub open spec fn trailing_run(row: Seq<Option<Piece>>, n: nat) -> nat
    decreases n,
{
    if n == 0 {
        0
    } else if row[n - 1] is None {
        trailing_run(row, (n - 1) as nat) + 1
    } else {
        0
    }
}

/// The text for the first `n` squares of a row, up to the empty squares at
/// their end: a letter for each piece, a digit for each run of empty
/// squares before a piece.
pub open spec fn rank_text_before_run(row: Seq<Option<Piece>>, n: nat) -> Seq<char>
    decreases n,
{
    if n == 0 {
        Seq::empty()
    } else {
        let before = rank_text_before_run(row, (n - 1) as nat);
        match row[n - 1] {
            None => before,
            Some(p) => with_run(before, trailing_run(row, (n - 1) as nat)).push(p.fen_letter()),
        }
    }
}

/// The text of a rank: a letter for each piece, and a digit for each run of
/// empty squares, as long as it can be.
pub open spec fn rank_text(row: Seq<Option<Piece>>) -> Seq<char> {
    with_run(rank_text_before_run(row, row.len()), trailing_run(row, row.len()))
}

/// The squares of a row of the board, from column 0 on.
pub open spec fn row_of(pieces: Map<(int, int), Piece>, row: int) -> Seq<Option<Piece>> {
    Seq::new(8, |col: int| pieces.get((row, col)))
}

/// The text of the first `n` ranks, from rank 8 down, separated by '/'.
pub open spec fn ranks_text(pieces: Map<(int, int), Piece>, n: nat) -> Seq<char>
    decreases n,
{
    if n == 0 {
        Seq::empty()
    } else if n == 1 {
        rank_text(row_of(pieces, 0))
    } else {
        ranks_text(pieces, (n - 1) as nat).push('/') + rank_text(row_of(pieces, n - 1))
    }
}

/// The letter of a side in FEN.
pub open spec fn turn_char(color: Color) -> char {
    match color {
        Color::White => 'w',
        Color::Black => 'b',
    }
}

/// Whether a square carries the coordinates of a square of the board.
pub open spec fn names_a_square(square: Square) -> bool {
    'a' <= square.file <= 'h' && 1 <= square.rank <= 8
}

/// The en-passant field: the target's file and rank, or "-" where there is
/// no target or it names no square of the board.
pub open spec fn passant_text(target: Option<Square>) -> Seq<char> {
    match target {
        Some(square) => if names_a_square(square) {
            seq![square.file, digit_char(square.rank as int)]
        } else {
            seq!['-']
        },
        None => seq!['-'],
    }
}

/// The line of FEN for a board.
pub open spec fn fen_text(position: Position) -> Seq<char> {
    ranks_text(position.pieces, 8).push(' ').push(turn_char(position.active_color)).push(' ')
        + castling_text(position.pieces) + seq![' '] + passant_text(position.passant_square) + seq![
        ' ',
    ] + decimal(position.half_moves as nat) + seq![' '] + decimal(position.full_moves as nat)
}


/// Every beginning of a rank's text describes squares too, and no more of
/// them than the whole text.
pub proof fn lemma_rank_prefix(text: Seq<char>, n: int)
    requires
        0 <= n <= text.len(),
        rank_squares(text) is Some,
    ensures
        rank_squares(text.take(n)) is Some,
        rank_squares(text.take(n))->0.len() <= rank_squares(text)->0.len(),
    decreases text.len(),
{
    if n == text.len() {
        assert(text.take(n) =~= text);
    } else {
        assert(text.take(n) =~= text.drop_last().take(n));
        lemma_rank_prefix(text.drop_last(), n);
    }
}

/// Every beginning of a number's digits is a number too, and no greater.
pub proof fn lemma_number_prefix(text: Seq<char>, n: int)
    requires
        1 <= n <= text.len(),
        number_of(text) is Some,
    ensures
        number_of(text.take(n)) is Some,
        number_of(text.take(n))->0 <= number_of(text)->0,
    decreases text.len(),
{
    if n == text.len() {
        assert(text.take(n) =~= text);
    } else {
        assert(text.take(n) =~= text.drop_last().take(n));
        lemma_number_prefix(text.drop_last(), n);
    }
}

/// The characters of a text.
pub fn chars_of(s: &str) -> (chars: Vec<char>)
    ensures
        chars@ == s@,
{
    let mut chars: Vec<char> = Vec::new();
    for c in it: s.chars()
        invariant
            chars@ == it.seq().take(it.index() as int),
            it.seq() == s@,
    {
        chars.push(c);
    }
    chars
}

/// Cuts a text into the fields that `sep` separates.
pub fn split_text(text: &Vec<char>, sep: char) -> (fields: Vec<Vec<char>>)
    ensures
        fields@.len() == split(text@, sep).len(),
        forall|i: int| 0 <= i < fields@.len() ==> (#[trigger] fields@[i])@ == split(text@, sep)[i],
{
    let mut fields: Vec<Vec<char>> = Vec::new();
    let mut current: Vec<char> = Vec::new();
    let ghost mut done: Seq<Seq<char>> = Seq::empty();
    let mut i: usize = 0;
    while i < text.len()
        invariant
            i <= text.len(),
            fields@.len() == done.len(),
            forall|j: int| 0 <= j < fields@.len() ==> (#[trigger] fields@[j])@ == done[j],
            split(text@.take(i as int), sep) == done.push(current@),
        decreases text.len() - i,
    {
        let c = text[i];
        proof {
            assert(text@.take(i + 1).drop_last() =~= text@.take(i as int));
        }
        if c == sep {
            proof {
                done = done.push(current@);
            }
            fields.push(current);
            current = Vec::new();
        } else {
            current.push(c);
            proof {
                let before = split(text@.take(i as int), sep);
                assert(before.update(before.len() - 1, before.last().push(c)) =~= done.push(
                    current@,
                ));
            }
        }
        i += 1;
    }
    proof {
        assert(text@.take(i as int) =~= text@);
        done = done.push(current@);
    }
    fields.push(current);
    fields
}

/// The unmoved piece that a FEN letter names.
pub fn letter_to_piece(c: char) -> (piece: Option<Piece>)
    ensures
        piece == piece_of_letter(c),
{
    match c {
        'P' => Some(Piece::new(Color::White, PieceType::Pawn)),
        'N' => Some(Piece::new(Color::White, PieceType::Knight)),
        'B' => Some(Piece::new(Color::White, PieceType::Bishop)),
        'R' => Some(Piece::new(Color::White, PieceType::Rook)),
        'Q' => Some(Piece::new(Color::White, PieceType::Queen)),
        'K' => Some(Piece::new(Color::White, PieceType::King)),
        'p' => Some(Piece::new(Color::Black, PieceType::Pawn)),
        'n' => Some(Piece::new(Color::Black, PieceType::Knight)),
        'b' => Some(Piece::new(Color::Black, PieceType::Bishop)),
        'r' => Some(Piece::new(Color::Black, PieceType::Rook)),
        'q' => Some(Piece::new(Color::Black, PieceType::Queen)),
        'k' => Some(Piece::new(Color::Black, PieceType::King)),
        _ => None,
    }
}

/// The value of a decimal digit.
pub fn digit_value(c: char) -> (d: Option<u8>)
    ensures
        d is Some <==> '0' <= c <= '9',
        d is Some ==> d->0 == c as int - '0' as int,
{
    match c {
        '0' => Some(0),
        '1' => Some(1),
        '2' => Some(2),
        '3' => Some(3),
        '4' => Some(4),
        '5' => Some(5),
        '6' => Some(6),
        '7' => Some(7),
        '8' => Some(8),
        '9' => Some(9),
        _ => None,
    }
}

/// Reads the text of a rank into its eight squares.
pub fn read_rank(text: &Vec<char>) -> (row: Option<Vec<Option<Piece>>>)
    ensures
        row is Some <==> is_rank(text@),
        row is Some ==> row->0@ == rank_squares(text@)->0,
{
    let mut row: Vec<Option<Piece>> = Vec::new();
    let mut i: usize = 0;
    while i < text.len()
        invariant
            i <= text.len(),
            row@.len() <= 8,
            rank_squares(text@.take(i as int)) == Some(row@),
        decreases text.len() - i,
    {
        let c = text[i];
        proof {
            assert(text@.take(i + 1).drop_last() =~= text@.take(i as int));
            if rank_squares(text@) is Some {
                lemma_rank_prefix(text@, i + 1);
            }
        }
        match letter_to_piece(c) {
            Some(piece) => {
                if row.len() >= 8 {
                    return None;
                }
                row.push(Some(piece));
            },
            None => {
                let run: usize = match digit_value(c) {
                    Some(d) => d as usize,
                    None => {
                        return None;
                    },
                };
                if run == 0 || run > 8 - row.len() {
                    return None;
                }
                let ghost before = row@;
                let mut k: usize = 0;
                while k < run
                    invariant
                        k <= run,
                        before.len() + run <= 8,
                        row@ == before + empty_run(k as nat),
                    decreases run - k,
                {
                    row.push(None);
                    k += 1;
                    assert(row@ =~= before + empty_run(k as nat));
                }
            },
        }
        i += 1;
    }
    proof {
        assert(text@.take(i as int) =~= text@);
    }
    if row.len() == 8 {
        Some(row)
    } else {
        None
    }
}

/// Reads a move counter.
pub fn read_counter(text: &Vec<char>) -> (n: Option<u32>)
    ensures
        n == counter_of(text@),
{
    if text.len() == 0 {
        return None;
    }
    let mut value: u64 = 0;
    let mut i: usize = 0;
    while i < text.len()
        invariant
            i <= text.len(),
            value <= u32::MAX,
            i > 0 ==> number_of(text@.take(i as int)) == Some(value as nat),
            i == 0 ==> value == 0,
        decreases text.len() - i,
    {
        proof {
            assert(text@.take(i + 1).drop_last() =~= text@.take(i as int));
            if number_of(text@) is Some {
                lemma_number_prefix(text@, i + 1);
            }
        }
        let d: u64 = match digit_value(text[i]) {
            Some(d) => d as u64,
            None => {
                return None;
            },
        };
        let next: u64 = value * 10 + d;
        if next > 0xffff_ffff {
            return None;
        }
        value = next;
        i += 1;
    }
    proof {
        assert(text@.take(i as int) =~= text@);
    }
    Some(value as u32)
}

/// Reads the side to move.
pub fn read_turn(text: &Vec<char>) -> (color: Option<Color>)
    ensures
        color == turn_of(text@),
{
    if text.len() != 1 {
        return None;
    }
    let c = text[0];
    assert(text@ =~= seq![c]);
    if c == 'w' {
        Some(Color::White)
    } else if c == 'b' {
        Some(Color::Black)
    } else {
        None
    }
}

/// Whether the text is a castling field.
pub fn check_castling(text: &Vec<char>) -> (ok: bool)
    ensures
        ok == is_castling_field(text@),
{
    if text.len() == 0 {
        return false;
    }
    let mut i: usize = 0;
    while i < text.len()
        invariant
            i <= text.len(),
            forall|j: int| 0 <= j < i ==> is_castling_char(#[trigger] text@[j]),
        decreases text.len() - i,
    {
        let c = text[i];
        if !(c == 'K' || c == 'Q' || c == 'k' || c == 'q' || c == '-') {
            return false;
        }
        i += 1;
    }
    true
}

/// Reads the en-passant target.
pub fn read_passant(text: &Vec<char>) -> (target: Option<Option<(usize, usize)>>)
    ensures
        match target {
            Some(Some(at)) => passant_of(text@) == Some(Some((at.0 as int, at.1 as int))),
            Some(None) => passant_of(text@) == Some(None::<(int, int)>),
            None => passant_of(text@) is None,
        },
        target matches Some(Some(at)) ==> at.0 < 8 && at.1 < 8,
{
    if text.len() == 1 {
        let c = text[0];
        assert(text@ =~= seq![c]);
        if c == '-' {
            return Some(None);
        }
        return None;
    }
    if text.len() != 2 {
        return None;
    }
    let col = match crate::notation::file_to_col(text[0]) {
        Some(col) => col,
        None => return None,
    };
    let ordinal = match crate::notation::rank_to_ordinal(text[1]) {
        Some(n) => n,
        None => return None,
    };
    Some(Some((7 - ordinal, col)))
}

/// Appends the text of one rank of the board.
pub fn push_rank(board: &ChessBoard, row: usize, out: &mut String)
    requires
        row < 8,
    ensures
        final(out)@ == old(out)@ + rank_text(row_of(board@.pieces, row as int)),
{
    let ghost cells = row_of(board@.pieces, row as int);
    let mut empty_squares: u8 = 0;
    let mut file: usize = 0;
    while file < 8
        invariant
            file <= 8,
            row < 8,
            cells == row_of(board@.pieces, row as int),
            empty_squares == trailing_run(cells, file as nat),
            empty_squares <= file,
            out@ == old(out)@ + rank_text_before_run(cells, file as nat),
        decreases 8 - file,
    {
        let ghost before = out@;
        match board.get_piece_0(row, file) {
            None => {
                empty_squares += 1;
            },
            Some(piece) => {
                if empty_squares > 0 {
                    out.push(digit_to_char(empty_squares));
                    empty_squares = 0;
                }
                out.push(piece.as_fen());
                assert(out@ =~= old(out)@ + rank_text_before_run(cells, (file + 1) as nat));
            },
        }
        file += 1;
    }
    if empty_squares > 0 {
        out.push(digit_to_char(empty_squares));
    }
    assert(out@ =~= old(out)@ + rank_text(cells));
}

/// Writes a board as a line of FEN.
pub fn encode_fen(board: &ChessBoard) -> (s: String)
    ensures
        s@ == fen_text(board@),
{
    let mut fen_code = String::new();
    let mut rank: usize = 0;
    while rank < 8
        invariant
            rank <= 8,
            fen_code@ == ranks_text(board@.pieces, rank as nat),
        decreases 8 - rank,
    {
        if rank > 0 {
            fen_code.push('/');
        }
        push_rank(board, rank, &mut fen_code);
        proof {
            if rank == 0 {
                assert(fen_code@ =~= ranks_text(board@.pieces, 1));
            }
        }
        rank += 1;
    }
    fen_code.push(' ');
    fen_code.push(
        match board.turn() {
            Color::White => 'w',
            Color::Black => 'b',
        },
    );
    fen_code.push(' ');
    let castling = board.get_castling_as_string();
    fen_code.append(castling.as_str());
    fen_code.push(' ');
    let ghost so_far = fen_code@;
    match board.en_passant() {
        Some(square) => {
            if 'a' <= square.file && square.file <= 'h' && 1 <= square.rank && square.rank <= 8 {
                fen_code.push(square.file);
                fen_code.push(digit_to_char(square.rank as u8));
            } else {
                fen_code.push('-');
            }
        },
        None => {
            fen_code.push('-');
        },
    }
    assert(fen_code@ =~= so_far + passant_text(board@.passant_square));
    fen_code.push(' ');
    push_decimal(&mut fen_code, board.half_move_count() as u64);
    fen_code.push(' ');
    push_decimal(&mut fen_code, board.full_move_count() as u64);
    assert(fen_code@ =~= fen_text(board@));
    fen_code
}

/// The pieces on the first `n` rows of the board that the ranks describe.
pub open spec fn pieces_of_ranks(ranks: Seq<Seq<char>>, n: int, m: int) -> Map<(int, int), Piece> {
    Map::new(
        |k: (int, int)|
            on_board(k.0, k.1) && (k.0 < n || (k.0 == n && k.1 < m)) && rank_squares(
                ranks[k.0],
            )->0[k.1] is Some,
        |k: (int, int)| rank_squares(ranks[k.0])->0[k.1]->0,
    )
}

/// Reads a line of FEN into a board.
pub fn decode_fen(s: &str) -> (outcome: Result<ChessBoard, ParseError>)
    ensures
        match fen_position(s@) {
            Some(position) => outcome is Ok && outcome->Ok_0@ == position,
            None => outcome is Err && outcome->Err_0 == ParseError::InvalidFENString,
        },
{
    let text = chars_of(s);
    let fields = split_text(&text, ' ');
    if fields.len() != 6 {
        return Err(ParseError::InvalidFENString);
    }
    let ranks = split_text(&fields[0], '/');
    if ranks.len() != 8 {
        return Err(ParseError::InvalidFENString);
    }
    let ghost rank_texts = split(fields@[0]@, '/');
    let mut board = ChessBoard::new();
    assert(board@.pieces =~= pieces_of_ranks(rank_texts, 0, 0));
    let mut row: usize = 0;
    while row < 8
        invariant
            row <= 8,
            ranks@.len() == 8,
            rank_texts.len() == 8,
            split(s@, ' ').len() == 6,
            rank_texts == split(split(s@, ' ')[0], '/'),
            forall|i: int| 0 <= i < 8 ==> (#[trigger] ranks@[i])@ == rank_texts[i],
            forall|r: int| 0 <= r < row ==> is_rank(#[trigger] rank_texts[r]),
            board@ == (Position {
                pieces: pieces_of_ranks(rank_texts, row as int, 0),
                active_color: Color::White,
                half_moves: 0,
                full_moves: 0,
                passant_square: None,
                highlighted: Map::empty(),
            }),
        decreases 8 - row,
    {
        let cells = match read_rank(&ranks[row]) {
            Some(cells) => cells,
            None => {
                return Err(ParseError::InvalidFENString);
            },
        };
        let mut col: usize = 0;
        while col < 8
            invariant
                col <= 8,
                row < 8,
                rank_texts.len() == 8,
                is_rank(rank_texts[row as int]),
                cells@ == rank_squares(rank_texts[row as int])->0,
                board@ == (Position {
                    pieces: pieces_of_ranks(rank_texts, row as int, col as int),
                    active_color: Color::White,
                    half_moves: 0,
                    full_moves: 0,
                    passant_square: None,
                    highlighted: Map::empty(),
                }),
            decreases 8 - col,
        {
            board.put(row, col, cells[col]);
            assert(board@.pieces =~= pieces_of_ranks(rank_texts, row as int, col + 1));
            col += 1;
        }
        assert(pieces_of_ranks(rank_texts, row as int, 8) =~= pieces_of_ranks(
            rank_texts,
            row + 1,
            0,
        ));
        row += 1;
    }
    assert(pieces_of_ranks(rank_texts, 8, 0) =~= placement_of(fields@[0]@)->0);
    let turn = match read_turn(&fields[1]) {
        Some(color) => color,
        None => {
            return Err(ParseError::InvalidFENString);
        },
    };
    if !check_castling(&fields[2]) {
        return Err(ParseError::InvalidFENString);
    }
    let target = match read_passant(&fields[3]) {
        Some(target) => target,
        None => {
            return Err(ParseError::InvalidFENString);
        },
    };
    let half_moves = match read_counter(&fields[4]) {
        Some(n) => n,
        None => {
            return Err(ParseError::InvalidFENString);
        },
    };
    let full_moves = match read_counter(&fields[5]) {
        Some(n) => n,
        None => {
            return Err(ParseError::InvalidFENString);
        },
    };
    board.set_turn(turn);
    board.set_counters(half_moves, full_moves);
    match target {
        Some(at) => {
            let square = *board.get_square_0(at.0, at.1);
            board.set_en_passant(Some(square));
        },
        None => {},
    }
    Ok(board)
}

/// Text that can be read as a line of FEN.
pub trait FENStringParsing {
    /// Reads the text into a board.
    fn parse_fen(&self) -> Result<ChessBoard, ParseError>;
}

impl FENStringParsing for str {
    fn parse_fen(&self) -> (outcome: Result<ChessBoard, ParseError>)
        ensures
            match fen_position(self@) {
                Some(position) => outcome is Ok && outcome->Ok_0@ == position,
                None => outcome is Err && outcome->Err_0 == ParseError::InvalidFENString,
            },
    {
        decode_fen(self)
    }
}

impl FromStr for ChessBoard {
    type Err = ParseError;

    fn from_str(s: &str) -> (outcome: Result<ChessBoard, ParseError>)
        ensures
            match fen_position(s@) {
                Some(position) => outcome is Ok && outcome->Ok_0@ == position,
                None => outcome is Err && outcome->Err_0 == ParseError::InvalidFENString,
            },
    {
        decode_fen(s)
    }
}

/// A board that can be written as a line of FEN.
pub trait BoardAsFEN {
    /// Writes the board as a line of FEN.
    fn as_fen(&self) -> String;
}

impl BoardAsFEN for ChessBoard {
    fn as_fen(&self) -> (s: String)
        ensures
            s@ == fen_text(self@),
    {
        encode_fen(self)
    }
}

} // verus!
