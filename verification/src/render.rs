//! The board as text art for a terminal: a framed grid with the chess
//! symbol of each piece, colored by side, and the highlighted squares on a
//! colored ground.

use crate::board::ChessBoard;
use crate::text::{decimal, push_decimal};
use crate::types::{Color, Piece};
use colored::{ColoredString, Colorize};
use vstd::prelude::*;

verus! {

/// A text with the colors it is to be shown in.
#[verifier::external_type_specification]
#[verifier::external_body]
pub struct ExColoredString(ColoredString);

/// The text that a colored text holds, whatever its colors.
pub uninterp spec fn styled_text(token: ColoredString) -> Seq<char>;

/// Whether a text as shown holds the given text: alone, or with something
/// before and after it.
pub open spec fn shows(shown: Seq<char>, text: Seq<char>) -> bool {
    exists|before: Seq<char>, after: Seq<char>| shown == before + text + after
}

/// `Colorize::yellow` of `colored`, on a `&str`: a colored text that holds
/// the text, to be shown in yellow.
#[verifier::external_body]
fn yellow(text: &str) -> (token: ColoredString)
    ensures
        styled_text(token) == text@,
{
    text.yellow()
}

/// `Colorize::blue` of `colored`, on a `&str`: a colored text that holds the
/// text, to be shown in blue.
#[verifier::external_body]
fn blue(text: &str) -> (token: ColoredString)
    ensures
        styled_text(token) == text@,
{
    text.blue()
}

/// `ColoredString::from` of `colored`: a colored text that holds the text,
/// with no color asked for.
#[verifier::external_body]
fn uncolored(text: &str) -> (token: ColoredString)
    ensures
        styled_text(token) == text@,
{
    ColoredString::from(text)
}

/// `Colorize::black` of `colored`, on a colored text: it holds the same
/// text, to be shown in black.
#[verifier::external_body]
fn black(token: ColoredString) -> (inked: ColoredString)
    ensures
        styled_text(inked) == styled_text(token),
{
    token.black()
}

/// `Colorize::on_yellow` of `colored`, on a colored text: it holds the same
/// text, to be shown on a yellow ground.
#[verifier::external_body]
fn on_yellow(token: ColoredString) -> (grounded: ColoredString)
    ensures
        styled_text(grounded) == styled_text(token),
{
    token.on_yellow()
}

/// `Colorize::on_blue` of `colored`, on a colored text: it holds the same
/// text, to be shown on a blue ground.
#[verifier::external_body]
fn on_blue(token: ColoredString) -> (grounded: ColoredString)
    ensures
        styled_text(grounded) == styled_text(token),
{
    token.on_blue()
}

/// The `Display` form of a colored text of `colored` that holds a single
/// character: the character alone, or between the escape codes that set the
/// colors and the one that resets them. Which of the two depends on the
/// terminal and on variables of the process, so no more is said.
#[verifier::external_body]
fn shown(token: &ColoredString) -> (text: String)
    requires
        styled_text(*token).len() == 1,
    ensures
        shows(text@, styled_text(*token)),
{
    token.to_string()
}

/// The line of file letters above the board.
pub open spec fn art_header() -> Seq<char> {
    "    a   b   c   d   e   f   g   h\n"@
}

/// The upper edge of the frame.
pub open spec fn art_top() -> Seq<char> {
    "  ┌───┬───┬───┬───┬───┬───┬───┬───┐\n"@
}

/// The line between two rows.
pub open spec fn art_between() -> Seq<char> {
    "  ├───┼───┼───┼───┼───┼───┼───┼───┤\n"@
}

/// The lower edge of the frame.
pub open spec fn art_bottom() -> Seq<char> {
    "  └───┴───┴───┴───┴───┴───┴───┴───┘\n"@
}

/// The line of column numbers below the board.
pub open spec fn art_footer() -> Seq<char> {
    "    0   1   2   3   4   5   6   7\n"@
}

/// The first `n` cells of a row, each between a blank and a blank with a
/// bar.
pub open spec fn art_cells(cells: Seq<Seq<char>>, n: nat) -> Seq<char>
    decreases n,
{
    if n == 0 {
        Seq::empty()
    } else {
        art_cells(cells, (n - 1) as nat) + " "@ + cells[n - 1] + " │"@
    }
}

/// One row of the board: its index, its eight cells, its rank, and below it
/// the line between rows, but for the last row.
pub open spec fn art_row(row: nat, cells: Seq<Seq<char>>) -> Seq<char> {
    let line = decimal(row) + " │"@ + art_cells(cells, 8) + " "@ + decimal((8 - row) as nat) + "\n"@;
    if row < 7 {
        line + art_between()
    } else {
        line
    }
}

/// The first `n` rows of the board.
pub open spec fn art_rows(cells: Seq<Seq<Seq<char>>>, n: nat) -> Seq<char>
    decreases n,
{
    if n == 0 {
        Seq::empty()
    } else {
        art_rows(cells, (n - 1) as nat) + art_row((n - 1) as nat, cells[n - 1])
    }
}

/// The board as text art, given the text of each of its 64 cells.
pub open spec fn board_art(cells: Seq<Seq<Seq<char>>>) -> Seq<char> {
    art_header() + art_top() + art_rows(cells, 8) + art_bottom() + art_footer()
}

/// Whether the cells are eight rows of eight.
pub open spec fn is_grid(cells: Seq<Seq<Seq<char>>>) -> bool {
    cells.len() == 8 && forall|r: int| 0 <= r < 8 ==> (#[trigger] cells[r]).len() == 8
}

/// The texts of the cells of a grid.
pub open spec fn cell_texts(cells: Seq<Vec<String>>) -> Seq<Seq<Seq<char>>> {
    Seq::new(cells.len(), |r: int| Seq::new(cells[r]@.len(), |c: int| cells[r]@[c]@))
}

/// What stands in the cell of a square: the symbol of the piece on it, or a
/// blank.
pub open spec fn cell_symbol(piece: Option<Piece>) -> char {
    match piece {
        Some(p) => p.symbol(),
        None => ' ',
    }
}

/// Whether each cell shows what stands on its square.
pub open spec fn cells_show(cells: Seq<Seq<Seq<char>>>, pieces: Map<(int, int), Piece>) -> bool {
    forall|r: int, c: int|
        0 <= r < 8 && 0 <= c < 8 ==> shows(
            #[trigger] cells[r][c],
            seq![cell_symbol(pieces.get((r, c)))],
        )
}

/// The text of one cell, as the terminal is to show it: the symbol of the
/// piece in yellow for White and in blue for Black, or a blank; on a
/// highlighted square, in black on the color of the side that touched it.
fn paint(piece: Option<Piece>, highlight: Option<Color>) -> (cell: String)
    ensures
        shows(cell@, seq![cell_symbol(piece)]),
{
    let mut symbol = String::new();
    let token = match piece {
        Some(p) => {
            symbol.push(p.to_unicode_symbol());
            if p.color == Color::White {
                yellow(symbol.as_str())
            } else {
                blue(symbol.as_str())
            }
        },
        None => {
            symbol.push(' ');
            uncolored(symbol.as_str())
        },
    };
    assert(symbol@ =~= seq![cell_symbol(piece)]);
    let token = match highlight {
        Some(Color::White) => on_yellow(black(token)),
        Some(Color::Black) => on_blue(black(token)),
        None => token,
    };
    shown(&token)
}

/// Sets one row of the board art: index, cells, rank, and the line below.
pub fn frame_row(row: usize, cells: &Vec<String>) -> (line: String)
    requires
        row < 8,
        cells@.len() == 8,
    ensures
        line@ == art_row(row as nat, Seq::new(8, |c: int| cells@[c]@)),
{
    let ghost texts = Seq::new(8, |c: int| cells@[c]@);
    let mut line = String::new();
    push_decimal(&mut line, row as u64);
    line.append(" │");
    let ghost start = line@;
    assert(start =~= decimal(row as nat) + " │"@);
    let mut col: usize = 0;
    while col < 8
        invariant
            col <= 8,
            cells@.len() == 8,
            texts == Seq::new(8, |c: int| cells@[c]@),
            line@ == start + art_cells(texts, col as nat),
        decreases 8 - col,
    {
        line.append(" ");
        line.append(cells[col].as_str());
        line.append(" │");
        assert(line@ =~= start + art_cells(texts, (col + 1) as nat));
        col += 1;
    }
    line.append(" ");
    push_decimal(&mut line, (8 - row) as u64);
    line.append("\n");
    if row < 7 {
        line.append("  ├───┼───┼───┼───┼───┼───┼───┼───┤\n");
    }
    line
}

/// Sets the board art around the texts of the 64 cells.
pub fn frame_board(cells: &Vec<Vec<String>>) -> (art: String)
    requires
        is_grid(cell_texts(cells@)),
    ensures
        art@ == board_art(cell_texts(cells@)),
{
    let ghost texts = cell_texts(cells@);
    let mut art = String::new();
    art.append("    a   b   c   d   e   f   g   h\n");
    art.append("  ┌───┬───┬───┬───┬───┬───┬───┬───┐\n");
    let ghost start = art@;
    assert(start =~= art_header() + art_top());
    let mut row: usize = 0;
    while row < 8
        invariant
            row <= 8,
            texts == cell_texts(cells@),
            is_grid(texts),
            art@ == start + art_rows(texts, row as nat),
        decreases 8 - row,
    {
        assert(texts[row as int].len() == 8);
        let line = frame_row(row, &cells[row]);
        assert(Seq::new(8, |c: int| cells@[row as int]@[c]@) =~= texts[row as int]);
        art.append(line.as_str());
        assert(art@ =~= start + art_rows(texts, (row + 1) as nat));
        row += 1;
    }
    art.append("  └───┴───┴───┴───┴───┴───┴───┴───┘\n");
    art.append("    0   1   2   3   4   5   6   7\n");
    art
}

impl ChessBoard {
    /// The text of each cell of the board, as the terminal is to show it.
    fn paint_cells(&self) -> (cells: Vec<Vec<String>>)
        ensures
            is_grid(cell_texts(cells@)),
            cells_show(cell_texts(cells@), self@.pieces),
    {
        let mut cells: Vec<Vec<String>> = Vec::new();
        let mut row: usize = 0;
        while row < 8
            invariant
                row <= 8,
                cells@.len() == row,
                forall|r: int| 0 <= r < row ==> (#[trigger] cells@[r])@.len() == 8,
                forall|r: int, c: int|
                    0 <= r < row && 0 <= c < 8 ==> shows(
                        #[trigger] cells@[r]@[c]@,
                        seq![cell_symbol(self@.pieces.get((r, c)))],
                    ),
            decreases 8 - row,
        {
            let mut line: Vec<String> = Vec::new();
            let mut col: usize = 0;
            while col < 8
                invariant
                    row < 8,
                    col <= 8,
                    line@.len() == col,
                    forall|c: int|
                        0 <= c < col ==> shows(
                            #[trigger] line@[c]@,
                            seq![cell_symbol(self@.pieces.get((row as int, c)))],
                        ),
                decreases 8 - col,
            {
                line.push(paint(self.get_piece_0(row, col), self.highlight_at(row, col)));
                col += 1;
            }
            cells.push(line);
            row += 1;
        }
        proof {
            let texts = cell_texts(cells@);
            assert forall|r: int, c: int| 0 <= r < 8 && 0 <= c < 8 implies shows(
                #[trigger] texts[r][c],
                seq![cell_symbol(self@.pieces.get((r, c)))],
            ) by {
                assert(texts[r][c] == cells@[r]@[c]@);
            }
        }
        cells
    }

    /// The board as text art: a framed grid under the file letters, each
    /// row between its index and its rank, and in each cell the symbol of
    /// the piece on that square, or a blank, as the terminal is to show it:
    /// alone, or between escape codes for its colors. The board is left as
    /// it was.
    pub fn as_str(&mut self) -> (art: String)
        ensures
            final(self)@ == old(self)@,
            exists|cells: Seq<Seq<Seq<char>>>|
                is_grid(cells) && cells_show(cells, old(self)@.pieces) && art@ == board_art(cells),
    {
        let cells = self.paint_cells();
        frame_board(&cells)
    }
}

} // verus!
