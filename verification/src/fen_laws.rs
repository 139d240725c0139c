//! What holds of reading and writing FEN together: a board that is written
//! and read again comes back.

use crate::board::{ChessBoard, Position};
use crate::fen::{
    empty_run, fen_position, fen_text, is_castling_char, is_castling_field, is_rank, number_of,
    passant_of, passant_text, piece_of_letter, placement_of, rank_squares, rank_text,
    rank_text_before_run, ranks_text, row_of, run_of_digit, split, trailing_run, turn_char,
    turn_of, with_run,
};
use crate::legality::castling_text;
use crate::text::{decimal, digit_char};
use crate::types::{on_board, Piece};
use vstd::prelude::*;

verus! {

/// Whether a character does not occur in a text.
pub open spec fn lacks(text: Seq<char>, c: char) -> bool {
    forall|i: int| 0 <= i < text.len() ==> #[trigger] text[i] != c
}

/// A piece as FEN keeps it: its side and kind, with no move to its count.
pub open spec fn unmoved(piece: Piece) -> Piece {
    Piece { moves: 0, ..piece }
}

/// The pieces as FEN keeps them.
pub open spec fn unmoved_pieces(pieces: Map<(int, int), Piece>) -> Map<(int, int), Piece> {
    Map::new(|k: (int, int)| pieces.contains_key(k), |k: (int, int)| unmoved(pieces[k]))
}

/// The squares of a row as FEN keeps them.
pub open spec fn unmoved_row(row: Seq<Option<Piece>>) -> Seq<Option<Piece>> {
    Seq::new(
        row.len(),
        |i: int|
            match row[i] {
                Some(p) => Some(unmoved(p)),
                None => None,
            },
    )
}

/// Cutting a text always gives at least one field.
pub proof fn lemma_split_nonempty(text: Seq<char>, sep: char)
    ensures
        split(text, sep).len() >= 1,
    decreases text.len(),
{
    if text.len() > 0 {
        lemma_split_nonempty(text.drop_last(), sep);
    }
}

/// A text without the separator is one field.
pub proof fn lemma_split_none(text: Seq<char>, sep: char)
    requires
        lacks(text, sep),
    ensures
        split(text, sep) == seq![text],
    decreases text.len(),
{
    if text.len() == 0 {
        assert(text =~= Seq::<char>::empty());
    } else {
        assert(text[text.len() - 1] != sep);
        lemma_split_none(text.drop_last(), sep);
        let before = split(text.drop_last(), sep);
        assert(text.drop_last().push(text.last()) =~= text);
        assert(before.update(before.len() - 1, before.last().push(text.last())) =~= seq![text]);
    }
}

/// The fields of two texts joined by the separator are the fields of the
/// first and then those of the second.
pub proof fn lemma_split_join(a: Seq<char>, b: Seq<char>, sep: char)
    ensures
        split(a.push(sep) + b, sep) == split(a, sep) + split(b, sep),
    decreases b.len(),
{
    let whole = a.push(sep) + b;
    if b.len() == 0 {
        assert(whole.drop_last() =~= a);
        assert(whole.last() == sep);
        assert(split(a, sep).push(Seq::empty()) =~= split(a, sep) + split(b, sep));
    } else {
        assert(whole.drop_last() =~= a.push(sep) + b.drop_last());
        assert(whole.last() == b.last());
        lemma_split_join(a, b.drop_last(), sep);
        lemma_split_nonempty(b.drop_last(), sep);
        let left = split(a, sep);
        let right = split(b.drop_last(), sep);
        let before = left + right;
        assert(before.last() == right.last());
        if b.last() == sep {
            assert(before.push(Seq::empty()) =~= left + right.push(Seq::empty()));
        } else {
            assert(before.update(before.len() - 1, before.last().push(b.last())) =~= left
                + right.update(right.len() - 1, right.last().push(b.last())));
        }
    }
}

/// The letter that is written for a piece is read as that piece, unmoved.
pub proof fn lemma_letter_round_trip(piece: Piece)
    ensures
        piece_of_letter(piece.fen_letter()) == Some(unmoved(piece)),
        run_of_digit(piece.fen_letter()) is None,
{
}

/// The digit that is written for a run of empty squares is read as that
/// run.
pub proof fn lemma_run_round_trip(text: Seq<char>, run: nat)
    requires
        run <= 8,
        rank_squares(text) is Some,
    ensures
        rank_squares(with_run(text, run)) == Some(rank_squares(text)->0 + empty_run(run)),
{
    if run == 0 {
        assert(rank_squares(text)->0 + empty_run(0) =~= rank_squares(text)->0);
    } else {
        let c = digit_char(run as int);
        assert(text.push(c).drop_last() =~= text);
        assert(piece_of_letter(c) is None);
        assert(run_of_digit(c) == Some(run));
    }
}

/// The empty squares at the end of the first `n` squares of a row are
/// empty, and no more than `n`.
pub proof fn lemma_trailing_run(row: Seq<Option<Piece>>, n: nat)
    requires
        n <= row.len(),
    ensures
        trailing_run(row, n) <= n,
        forall|j: int| n - trailing_run(row, n) <= j < n ==> (#[trigger] row[j]) is None,
    decreases n,
{
    if n > 0 && row[n - 1] is None {
        lemma_trailing_run(row, (n - 1) as nat);
    }
}

/// What is written for the first `n` squares of a row, up to the empty
/// squares at their end, is read as those squares.
pub proof fn lemma_rank_before_run(row: Seq<Option<Piece>>, n: nat)
    requires
        n <= row.len() <= 8,
    ensures
        trailing_run(row, n) <= n,
        rank_squares(rank_text_before_run(row, n)) == Some(
            unmoved_row(row).take(n - trailing_run(row, n)),
        ),
    decreases n,
{
    lemma_trailing_run(row, n);
    if n == 0 {
        assert(unmoved_row(row).take(0) =~= Seq::<Option<Piece>>::empty());
    } else {
        lemma_rank_before_run(row, (n - 1) as nat);
        lemma_trailing_run(row, (n - 1) as nat);
        let before = rank_text_before_run(row, (n - 1) as nat);
        let run = trailing_run(row, (n - 1) as nat);
        match row[n - 1] {
            None => {},
            Some(p) => {
                lemma_run_round_trip(before, run);
                lemma_letter_round_trip(p);
                let text = with_run(before, run).push(p.fen_letter());
                assert(text.drop_last() =~= with_run(before, run));
                assert((unmoved_row(row).take(n - 1 - run) + empty_run(run)).push(Some(unmoved(p)))
                    =~= unmoved_row(row).take(n as int));
            },
        }
    }
}

/// What is written for a row of up to eight squares is read as that row.
pub proof fn lemma_rank_round_trip(row: Seq<Option<Piece>>)
    requires
        row.len() <= 8,
    ensures
        rank_squares(rank_text(row)) == Some(unmoved_row(row)),
{
    lemma_rank_before_run(row, row.len());
    lemma_trailing_run(row, row.len());
    lemma_run_round_trip(rank_text_before_run(row, row.len()), trailing_run(row, row.len()));
    assert(unmoved_row(row).take(row.len() - trailing_run(row, row.len())) + empty_run(
        trailing_run(row, row.len()),
    ) =~= unmoved_row(row));
}

/// A text that describes squares holds piece letters and digits from '1' to
/// '8' only.
pub proof fn lemma_rank_chars(text: Seq<char>)
    requires
        rank_squares(text) is Some,
    ensures
        forall|i: int|
            0 <= i < text.len() ==> piece_of_letter(#[trigger] text[i]) is Some || run_of_digit(
                text[i],
            ) is Some,
    decreases text.len(),
{
    if text.len() > 0 {
        lemma_rank_chars(text.drop_last());
        assert forall|i: int| 0 <= i < text.len() implies piece_of_letter(#[trigger] text[i])
            is Some || run_of_digit(text[i]) is Some by {
            if i < text.len() - 1 {
                assert(text[i] == text.drop_last()[i]);
            }
        }
    }
}

/// The text of a rank holds neither '/' nor a blank.
pub proof fn lemma_rank_text_plain(row: Seq<Option<Piece>>)
    requires
        row.len() <= 8,
    ensures
        lacks(rank_text(row), '/'),
        lacks(rank_text(row), ' '),
{
    lemma_rank_round_trip(row);
    lemma_rank_chars(rank_text(row));
}

/// The text of the ranks, cut at '/', gives the text of each rank; and it
/// holds no blank.
pub proof fn lemma_ranks_split(pieces: Map<(int, int), Piece>, n: nat)
    requires
        1 <= n <= 8,
    ensures
        split(ranks_text(pieces, n), '/') == Seq::new(
            n,
            |r: int| rank_text(row_of(pieces, r)),
        ),
        lacks(ranks_text(pieces, n), ' '),
    decreases n,
{
    let last = rank_text(row_of(pieces, n - 1));
    lemma_rank_text_plain(row_of(pieces, n - 1));
    lemma_split_none(last, '/');
    if n == 1 {
        assert(seq![last] =~= Seq::new(1, |r: int| rank_text(row_of(pieces, r))));
    } else {
        let before = ranks_text(pieces, (n - 1) as nat);
        lemma_ranks_split(pieces, (n - 1) as nat);
        lemma_split_join(before, last, '/');
        assert(split(before, '/') + seq![last] =~= Seq::new(
            n,
            |r: int| rank_text(row_of(pieces, r)),
        ));
        assert forall|i: int| 0 <= i < ranks_text(pieces, n).len() implies #[trigger] ranks_text(
            pieces,
            n,
        )[i] != ' ' by {
            if i < before.len() {
                assert(ranks_text(pieces, n)[i] == before[i]);
            } else if i > before.len() {
                assert(ranks_text(pieces, n)[i] == last[i - before.len() - 1]);
            }
        }
    }
}

/// The decimal digits of a number are digits, and at least one.
pub proof fn lemma_decimal_digits(n: nat)
    ensures
        decimal(n).len() >= 1,
        forall|i: int| 0 <= i < decimal(n).len() ==> '0' <= #[trigger] decimal(n)[i] <= '9',
    decreases n,
{
    if n >= 10 {
        lemma_decimal_digits(n / 10);
    }
}

/// A number that is written in decimal is read as that number.
pub proof fn lemma_number_round_trip(n: nat)
    ensures
        number_of(decimal(n)) == Some(n),
    decreases n,
{
    if n >= 10 {
        lemma_number_round_trip(n / 10);
        lemma_decimal_digits(n / 10);
        assert(decimal(n).drop_last() =~= decimal(n / 10));
    }
}

/// What is written for the castling rights is a castling field without a
/// blank.
pub proof fn lemma_castling_text(pieces: Map<(int, int), Piece>)
    ensures
        is_castling_field(castling_text(pieces)),
        lacks(castling_text(pieces), ' '),
{
    let text = castling_text(pieces);
    assert(text.len() >= 1);
    assert forall|i: int| 0 <= i < text.len() implies is_castling_char(#[trigger] text[i]) by {}
}

/// A text with one more field after a blank has one more field.
pub proof fn lemma_split_one_more(text: Seq<char>, fields: Seq<Seq<char>>, field: Seq<char>)
    requires
        split(text, ' ') == fields,
        lacks(field, ' '),
    ensures
        split(text.push(' ') + field, ' ') == fields.push(field),
{
    lemma_split_join(text, field, ' ');
    lemma_split_none(field, ' ');
    assert(fields + seq![field] =~= fields.push(field));
}

/// The fields after the placement hold no blank.
pub proof fn lemma_fields_plain(position: Position)
    ensures
        lacks(seq![turn_char(position.active_color)], ' '),
        lacks(castling_text(position.pieces), ' '),
        lacks(passant_text(position.passant_square), ' '),
        lacks(decimal(position.half_moves as nat), ' '),
        lacks(decimal(position.full_moves as nat), ' '),
{
    lemma_castling_text(position.pieces);
    lemma_decimal_digits(position.half_moves as nat);
    lemma_decimal_digits(position.full_moves as nat);
}

/// The six fields of a line that is written for a board.
pub proof fn lemma_fen_fields(position: Position)
    ensures
        split(fen_text(position), ' ') == seq![
            ranks_text(position.pieces, 8),
            seq![turn_char(position.active_color)],
            castling_text(position.pieces),
            passant_text(position.passant_square),
            decimal(position.half_moves as nat),
            decimal(position.full_moves as nat),
        ],
{
    let f0 = ranks_text(position.pieces, 8);
    let f1 = seq![turn_char(position.active_color)];
    let f2 = castling_text(position.pieces);
    let f3 = passant_text(position.passant_square);
    let f4 = decimal(position.half_moves as nat);
    let f5 = decimal(position.full_moves as nat);
    lemma_ranks_split(position.pieces, 8);
    lemma_fields_plain(position);
    lemma_split_none(f0, ' ');
    let x1 = f0.push(' ') + f1;
    let x2 = x1.push(' ') + f2;
    let x3 = x2.push(' ') + f3;
    let x4 = x3.push(' ') + f4;
    let x5 = x4.push(' ') + f5;
    lemma_split_one_more(f0, seq![f0], f1);
    lemma_split_one_more(x1, seq![f0].push(f1), f2);
    lemma_split_one_more(x2, seq![f0].push(f1).push(f2), f3);
    lemma_split_one_more(x3, seq![f0].push(f1).push(f2).push(f3), f4);
    lemma_split_one_more(x4, seq![f0].push(f1).push(f2).push(f3).push(f4), f5);
    assert(seq![f0].push(f1).push(f2).push(f3).push(f4).push(f5) =~= seq![f0, f1, f2, f3, f4, f5]);
    assert(x5 == fen_text(position)) by {
        assert(x1 =~= f0.push(' ').push(turn_char(position.active_color)));
        assert(x2 =~= x1.push(' ') + f2);
        assert(x3 =~= x2 + seq![' '] + f3);
        assert(x4 =~= x3 + seq![' '] + f4);
        assert(x5 =~= x4 + seq![' '] + f5);
    }
}

/// Reading what was written for a board gives the board back: the same
/// pieces on the same squares, each as unmoved, the same side to move and
/// the same counters.
pub proof fn lemma_decode_encode(position: Position)
    requires
        forall|k: (int, int)| position.pieces.contains_key(k) ==> on_board(k.0, k.1),
    ensures
        fen_position(fen_text(position)) is Some,
        fen_position(fen_text(position))->0.pieces == unmoved_pieces(position.pieces),
        fen_position(fen_text(position))->0.active_color == position.active_color,
        fen_position(fen_text(position))->0.half_moves == position.half_moves,
        fen_position(fen_text(position))->0.full_moves == position.full_moves,
{
    let pieces = position.pieces;
    let fields = split(fen_text(position), ' ');
    lemma_fen_fields(position);
    lemma_ranks_split(pieces, 8);
    let ranks = split(fields[0], '/');
    assert forall|r: int| 0 <= r < 8 implies is_rank(#[trigger] ranks[r]) && rank_squares(
        ranks[r],
    )->0 == unmoved_row(row_of(pieces, r)) by {
        lemma_rank_round_trip(row_of(pieces, r));
    }
    assert(placement_of(fields[0]) is Some);
    assert(placement_of(fields[0])->0 =~= unmoved_pieces(pieces));
    lemma_castling_text(pieces);
    lemma_number_round_trip(position.half_moves as nat);
    lemma_number_round_trip(position.full_moves as nat);
    assert(turn_of(fields[1]) == Some(position.active_color)) by {
        assert(fields[1][0] == turn_char(position.active_color));
        assert(seq!['b'][0] != seq!['w'][0]);
    }
    assert(passant_of(fields[3]) is Some);
}

/// A board that is written as a line of FEN and read again has pieces of
/// the same side and kind on the same squares, the same side to move and
/// the same counters.
pub proof fn lemma_board_round_trip(board: &ChessBoard)
    ensures
        fen_position(fen_text(board@)) is Some,
        forall|k: (int, int)|
            fen_position(fen_text(board@))->0.pieces.contains_key(k) <==> board@.pieces.contains_key(
                k,
            ),
        forall|k: (int, int)|
            board@.pieces.contains_key(k) ==> (#[trigger] fen_position(
                fen_text(board@),
            )->0.pieces[k]).same_kind(board@.pieces[k]),
        fen_position(fen_text(board@))->0.active_color == board@.active_color,
        fen_position(fen_text(board@))->0.half_moves == board@.half_moves,
        fen_position(fen_text(board@))->0.full_moves == board@.full_moves,
{
    board.lemma_pieces_on_board();
    lemma_decode_encode(board@);
}

/// Writing the board that a line of FEN describes, and reading that again,
/// gives the same board: the placement and the side to move of the line
/// come back, and so do the counters and the en-passant target.
pub proof fn lemma_encode_decode(text: Seq<char>)
    requires
        fen_position(text) is Some,
    ensures
        fen_position(fen_text(fen_position(text)->0)) == fen_position(text),
{
    let position = fen_position(text)->0;
    let pieces = position.pieces;
    lemma_decode_encode(position);
    let again = fen_position(fen_text(position))->0;
    assert(unmoved_pieces(pieces) =~= pieces) by {
        let ranks = split(split(text, ' ')[0], '/');
        assert forall|k: (int, int)| pieces.contains_key(k) implies unmoved(#[trigger] pieces[k])
            == pieces[k] by {
            lemma_squares_unmoved(ranks[k.0], k.1);
        }
    }
    lemma_fen_fields(position);
    assert(again.passant_square == position.passant_square);
    assert(again.highlighted == position.highlighted);
}

/// The line that is written for the board of a well-formed line of FEN
/// describes the same placement of the pieces in its first field, and has
/// the same second field: the side to move.
pub proof fn lemma_encode_keeps_placement_and_turn(text: Seq<char>)
    requires
        fen_position(text) is Some,
    ensures
        placement_of(split(fen_text(fen_position(text)->0), ' ')[0]) == placement_of(
            split(text, ' ')[0],
        ),
        split(fen_text(fen_position(text)->0), ' ')[1] == split(text, ' ')[1],
{
    let position = fen_position(text)->0;
    lemma_encode_decode(text);
    lemma_fen_fields(position);
    let turn = split(text, ' ')[1];
    assert(turn =~= seq![turn_char(position.active_color)]);
}

/// The pieces that a rank's text describes have no move to their count.
pub proof fn lemma_squares_unmoved(text: Seq<char>, i: int)
    requires
        rank_squares(text) is Some,
        0 <= i < rank_squares(text)->0.len(),
        rank_squares(text)->0[i] is Some,
    ensures
        rank_squares(text)->0[i]->0.moves == 0,
    decreases text.len(),
{
    if text.len() > 0 {
        let before = rank_squares(text.drop_last())->0;
        if i < before.len() {
            lemma_squares_unmoved(text.drop_last(), i);
        }
    }
}

} // verus!
