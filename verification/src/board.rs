//! The board: an 8 by 8 grid of squares, the side to move, the move
//! counters, the en-passant target and the squares to highlight.

use crate::notation::{c_file_to_index, parse_square, pos_from_str, rank_to_index};
use crate::types::{on_board, Color, HighlightedSquare, Piece, PieceType, Square};
use std::collections::HashMap;
use vstd::prelude::*;
use vstd::string::StringSliceAdditionalSpecFns;

verus! {

/// The file letter of a column: 'a' for column 0, 'h' for column 7.
pub open spec fn file_letter(col: int) -> char {
    (97 + col) as char
}

/// The key under which a square is kept among the highlighted squares.
pub open spec fn square_index(row: int, col: int) -> usize {
    (row * 8 + col) as usize
}

/// The square at `(row, col)` of a board with the given pieces: its
/// occupant, and the coordinates that belong to that place.
pub open spec fn square_of(pieces: Map<(int, int), Piece>, row: int, col: int) -> Square {
    Square {
        piece: pieces.get((row, col)),
        rank: (8 - row) as usize,
        file: file_letter(col),
        row: row as usize,
        col: col as usize,
    }
}

/// The pieces after `piece` was put on `(row, col)`, or after the square was
/// cleared where `piece` is `None`.
pub open spec fn with_square(
    pieces: Map<(int, int), Piece>,
    row: int,
    col: int,
    piece: Option<Piece>,
) -> Map<(int, int), Piece> {
    match piece {
        Some(p) => pieces.insert((row, col), p),
        None => pieces.remove((row, col)),
    }
}

/// The squares among the first `n` in row-major order that hold a piece of
/// the given kind and side, in that order.
pub open spec fn squares_holding(
    pieces: Map<(int, int), Piece>,
    piece_type: PieceType,
    color: Color,
    n: nat,
) -> Seq<Square>
    decreases n,
{
    if n == 0 {
        Seq::empty()
    } else {
        let rest = squares_holding(pieces, piece_type, color, (n - 1) as nat);
        let row = (n - 1) / 8;
        let col = (n - 1) % 8;
        match pieces.get((row, col)) {
            Some(p) => if p.color == color && p.piece_type == piece_type {
                rest.push(square_of(pieces, row, col))
            } else {
                rest
            },
            None => rest,
        }
    }
}

/// The first square among the first `n` in row-major order that holds the
/// king of the given side.
pub open spec fn king_square(pieces: Map<(int, int), Piece>, color: Color, n: nat) -> Option<
    (i32, i32),
>
    decreases n,
{
    if n == 0 {
        None
    } else {
        match king_square(pieces, color, (n - 1) as nat) {
            Some(at) => Some(at),
            None => {
                let row = (n - 1) / 8;
                let col = (n - 1) % 8;
                match pieces.get((row, col)) {
                    Some(p) => if p.color == color && p.piece_type == PieceType::King {
                        Some((row as i32, col as i32))
                    } else {
                        None
                    },
                    None => None,
                }
            },
        }
    }
}

/// What a board is, as plain mathematics.
pub struct Position {
    /// The occupied squares, by (row, col), row 0 being rank 8.
    pub pieces: Map<(int, int), Piece>,
    /// The side to move.
    pub active_color: Color,
    /// Plies since the last capture or pawn move.
    pub half_moves: u32,
    /// Completed moves: one more after each move of Black.
    pub full_moves: u32,
    /// The en-passant target, if any.
    pub passant_square: Option<Square>,
    /// The squares to highlight, by `square_index`, each with the side that
    /// touched it.
    pub highlighted: Map<usize, Color>,
}

/// The 64 squares. Each one knows where it stands, and keeps knowing it.
struct Grid {
    cells: [[Square; 8]; 8],
}

impl Grid {
    /// Every square carries the coordinates of its place.
    #[verifier::type_invariant]
    spec fn at_home(self) -> bool {
        forall|r: int, c: int|
            0 <= r < 8 && 0 <= c < 8 ==> {
                &&& (#[trigger] self.cells[r][c]).row == r
                &&& self.cells[r][c].col == c
                &&& self.cells[r][c].rank == 8 - r
                &&& self.cells[r][c].file == file_letter(c)
            }
    }

    /// The occupied squares, by (row, col).
    spec fn pieces(self) -> Map<(int, int), Piece> {
        Map::new(
            |k: (int, int)| on_board(k.0, k.1) && self.cells[k.0][k.1].piece is Some,
            |k: (int, int)| self.cells[k.0][k.1].piece->0,
        )
    }

    /// The 64 squares with nothing on them.
    fn empty() -> (g: Grid)
        ensures
            g.pieces() == Map::<(int, int), Piece>::empty(),
    {
        let ghost none = Map::<(int, int), Piece>::empty();
        let blank = Square { piece: None, rank: 0, file: 'a', row: 0, col: 0 };
        let mut cells: [[Square; 8]; 8] = [[blank; 8]; 8];
        let mut row: usize = 0;
        while row < 8
            invariant
                row <= 8,
                none == Map::<(int, int), Piece>::empty(),
                forall|r: int, c: int|
                    0 <= r < row && 0 <= c < 8 ==> (#[trigger] cells[r][c]) == square_of(none, r, c),
            decreases 8 - row,
        {
            let mut col: usize = 0;
            while col < 8
                invariant
                    row < 8,
                    col <= 8,
                    none == Map::<(int, int), Piece>::empty(),
                    forall|r: int, c: int|
                        0 <= r < row && 0 <= c < 8 ==> (#[trigger] cells[r][c]) == square_of(
                            none,
                            r,
                            c,
                        ),
                    forall|c: int|
                        0 <= c < col ==> (#[trigger] cells[row as int][c]) == square_of(
                            none,
                            row as int,
                            c,
                        ),
                decreases 8 - col,
            {
                cells[row][col] = Square {
                    piece: None,
                    rank: 8 - row,
                    file: file_of_col(col),
                    row,
                    col,
                };
                col += 1;
            }
            row += 1;
        }
        let g = Grid { cells };
        assert(g.pieces() =~= none);
        g
    }

    /// The square at `(row, col)`.
    fn get(&self, row: usize, col: usize) -> (sq: &Square)
        requires
            row < 8,
            col < 8,
        ensures
            *sq == square_of(self.pieces(), row as int, col as int),
    {
        proof {
            use_type_invariant(self);
        }
        &self.cells[row][col]
    }

    /// Puts `piece` on the square at `(row, col)`, or clears the square.
    fn put(&mut self, row: usize, col: usize, piece: Option<Piece>)
        requires
            row < 8,
            col < 8,
        ensures
            final(self).pieces() == with_square(old(self).pieces(), row as int, col as int, piece),
    {
        proof {
            use_type_invariant(&*self);
        }
        self.cells[row][col].piece = piece;
        assert(self.pieces() =~= with_square(old(self).pieces(), row as int, col as int, piece));
    }
}

/// The file letter of a column.
pub fn file_of_col(col: usize) -> (file: char)
    requires
        col < 8,
    ensures
        file == file_letter(col as int),
{
    match col {
        0 => 'a',
        1 => 'b',
        2 => 'c',
        3 => 'd',
        4 => 'e',
        5 => 'f',
        6 => 'g',
        _ => 'h',
    }
}

/// A chess board with the state of a game.
pub struct ChessBoard {
    squares: Grid,
    /// The side to move.
    pub active_color: Color,
    /// Plies since the last capture or pawn move.
    pub half_moves: u32,
    /// Completed moves: one more after each move of Black.
    pub full_moves: u32,
    /// The en-passant target, if any.
    pub passant_square: Option<Square>,
    /// The squares to highlight, keyed by `row * 8 + col`, each with the side
    /// that touched it.
    pub highlighted: HashMap<usize, Color>,
}

impl View for ChessBoard {
    type V = Position;

    closed spec fn view(&self) -> Position {
        Position {
            pieces: self.squares.pieces(),
            active_color: self.active_color,
            half_moves: self.half_moves,
            full_moves: self.full_moves,
            passant_square: self.passant_square,
            highlighted: self.highlighted@,
        }
    }
}

impl ChessBoard {
    /// An empty board, White to move, all counters at zero.
    pub fn new() -> (board: ChessBoard)
        ensures
            board@ == (Position {
                pieces: Map::empty(),
                active_color: Color::White,
                half_moves: 0,
                full_moves: 0,
                passant_square: None,
                highlighted: Map::empty(),
            }),
    {
        ChessBoard {
            squares: Grid::empty(),
            active_color: Color::White,
            full_moves: 0,
            half_moves: 0,
            passant_square: None,
            highlighted: HashMap::new(),
        }
    }

    /// Every occupied square is a square of the board.
    pub proof fn lemma_pieces_on_board(&self)
        ensures
            forall|k: (int, int)| #[trigger] self@.pieces.contains_key(k) ==> on_board(k.0, k.1),
    {
    }

    /// Puts an unmoved piece on the square named by rank (1 to 8) and file
    /// ('a' to 'h').
    pub fn set_piece(&mut self, rank: usize, file: &char, color: Color, piece_type: PieceType) -> (ret:
        &mut ChessBoard)
        requires
            1 <= rank <= 8,
            'a' <= *file <= 'h',
        ensures
            ret@ == (Position {
                pieces: old(self)@.pieces.insert(
                    (8 - rank, *file as int - 'a' as int),
                    Piece { color, piece_type, moves: 0 },
                ),
                ..old(self)@
            }),
            *final(self) == *final(ret),
    {
        let index_rank = rank_to_index(rank);
        let index_file = c_file_to_index(file);
        self.squares.put(index_rank, index_file, Some(Piece::new(color, piece_type)));
        self
    }

    /// Puts `piece` on the square at `(row, col)`, or clears the square.
    pub fn set_piece_0(&mut self, row: usize, col: usize, piece: Option<Piece>) -> (ret:
        &mut ChessBoard)
        requires
            row < 8,
            col < 8,
        ensures
            ret@ == (Position {
                pieces: with_square(old(self)@.pieces, row as int, col as int, piece),
                ..old(self)@
            }),
            *final(self) == *final(ret),
    {
        self.squares.put(row, col, piece);
        self
    }

    /// What stands on the square at `(row, col)`.
    pub fn get_piece_0(&self, row: usize, col: usize) -> (piece: Option<Piece>)
        requires
            row < 8,
            col < 8,
        ensures
            piece == self@.pieces.get((row as int, col as int)),
    {
        self.squares.get(row, col).piece
    }

    /// What stands on the square that `coordinate` names, such as "e4";
    /// nothing where it names no square.
    pub fn get_piece_a(&self, coordinate: &str) -> (piece: Option<Piece>)
        ensures
            piece == (match parse_square(coordinate.spec_bytes()) {
                Ok(at) => self@.pieces.get((at.0 as int, at.1 as int)),
                Err(_) => None,
            }),
    {
        match pos_from_str(coordinate) {
            Ok(at) => self.squares.get(at.0, at.1).piece,
            Err(_) => None,
        }
    }

    /// The square that `coordinate` names, such as "e4", with its occupant.
    pub fn get_square_a(&self, coordinate: &str) -> (square: Option<Square>)
        ensures
            square == (match parse_square(coordinate.spec_bytes()) {
                Ok(at) => Some(square_of(self@.pieces, at.0 as int, at.1 as int)),
                Err(_) => None,
            }),
    {
        match pos_from_str(coordinate) {
            Ok(at) => Some(*self.squares.get(at.0, at.1)),
            Err(_) => None,
        }
    }

    /// The square at `(row, col)`, with its occupant.
    pub fn get_square_0(&self, row: usize, col: usize) -> (square: &Square)
        requires
            row < 8,
            col < 8,
        ensures
            *square == square_of(self@.pieces, row as int, col as int),
    {
        self.squares.get(row, col)
    }

    /// The squares that hold a piece of the given kind and side, in
    /// row-major order.
    pub fn find_pieces(&self, piece_type: PieceType, color: Color) -> (found: Vec<&Square>)
        ensures
            found@.len() == squares_holding(self@.pieces, piece_type, color, 64).len(),
            forall|k: int|
                0 <= k < found@.len() ==> *(#[trigger] found@[k]) == squares_holding(
                    self@.pieces,
                    piece_type,
                    color,
                    64,
                )[k],
    {
        let mut found: Vec<&Square> = Vec::new();
        let mut n: usize = 0;
        while n < 64
            invariant
                n <= 64,
                found@.len() == squares_holding(self@.pieces, piece_type, color, n as nat).len(),
                forall|k: int|
                    0 <= k < found@.len() ==> *(#[trigger] found@[k]) == squares_holding(
                        self@.pieces,
                        piece_type,
                        color,
                        n as nat,
                    )[k],
            decreases 64 - n,
        {
            let square = self.squares.get(n / 8, n % 8);
            if let Some(piece) = square.piece {
                if piece.color == color && piece.piece_type == piece_type {
                    found.push(square);
                }
            }
            n += 1;
        }
        found
    }

    /// The first square in row-major order that holds the king of the given
    /// side, as (row, col).
    pub fn find_king(&self, king_color: Color) -> (at: Option<(i32, i32)>)
        ensures
            at == king_square(self@.pieces, king_color, 64),
    {
        let mut n: usize = 0;
        while n < 64
            invariant
                n <= 64,
                king_square(self@.pieces, king_color, n as nat) is None,
            decreases 64 - n,
        {
            if let Some(piece) = self.squares.get(n / 8, n % 8).piece {
                if piece.color == king_color && piece.piece_type == PieceType::King {
                    proof {
                        lemma_king_square_stays(self@.pieces, king_color, (n + 1) as nat, 64);
                    }
                    return Some(((n / 8) as i32, (n % 8) as i32));
                }
            }
            n += 1;
        }
        None
    }

    /// The side to move.
    pub fn turn(&self) -> (color: Color)
        ensures
            color == self@.active_color,
    {
        self.active_color
    }

    /// Completed moves.
    pub fn full_move_count(&self) -> (n: u32)
        ensures
            n == self@.full_moves,
    {
        self.full_moves
    }

    /// Plies since the last capture or pawn move.
    pub fn half_move_count(&self) -> (n: u32)
        ensures
            n == self@.half_moves,
    {
        self.half_moves
    }

    /// The en-passant target, if any.
    pub fn en_passant(&self) -> (square: Option<Square>)
        ensures
            square == self@.passant_square,
    {
        self.passant_square
    }

    /// The side whose move touched the square at `(row, col)`, where the
    /// square is to be highlighted.
    pub fn highlight_at(&self, row: usize, col: usize) -> (color: Option<Color>)
        requires
            row < 8,
            col < 8,
        ensures
            color == self@.highlighted.get(square_index(row as int, col as int)),
    {
        let key: usize = row * 8 + col;
        match self.highlighted.get(&key) {
            Some(color) => Some(*color),
            None => None,
        }
    }

    /// The squares to highlight, in row-major order.
    pub fn highlights(&self) -> (marked: Vec<HighlightedSquare>)
        ensures
            marked@ == highlighted_squares(self@.highlighted, 64),
    {
        let mut marked: Vec<HighlightedSquare> = Vec::new();
        let mut n: usize = 0;
        while n < 64
            invariant
                n <= 64,
                marked@ == highlighted_squares(self@.highlighted, n as nat),
            decreases 64 - n,
        {
            if let Some(color) = self.highlighted.get(&n) {
                marked.push(HighlightedSquare { row: n / 8, col: n % 8, color: *color });
            }
            n += 1;
        }
        marked
    }

    /// Makes `color` the side to move.
    pub(crate) fn set_turn(&mut self, color: Color)
        ensures
            final(self)@ == (Position { active_color: color, ..old(self)@ }),
    {
        self.active_color = color;
    }

    /// Sets the two move counters.
    pub(crate) fn set_counters(&mut self, half_moves: u32, full_moves: u32)
        ensures
            final(self)@ == (Position { half_moves, full_moves, ..old(self)@ }),
    {
        self.half_moves = half_moves;
        self.full_moves = full_moves;
    }

    /// Sets the en-passant target.
    pub(crate) fn set_en_passant(&mut self, square: Option<Square>)
        ensures
            final(self)@ == (Position { passant_square: square, ..old(self)@ }),
    {
        self.passant_square = square;
    }

    /// Puts `piece` on the square at `(row, col)`, or clears the square.
    pub(crate) fn put(&mut self, row: usize, col: usize, piece: Option<Piece>)
        requires
            row < 8,
            col < 8,
        ensures
            final(self)@ == (Position {
                pieces: with_square(old(self)@.pieces, row as int, col as int, piece),
                ..old(self)@
            }),
    {
        self.squares.put(row, col, piece);
    }

    /// Highlights no square any more.
    pub(crate) fn clear_highlights(&mut self)
        ensures
            final(self)@ == (Position { highlighted: Map::empty(), ..old(self)@ }),
    {
        self.highlighted.clear();
    }

    /// Highlights the square at `(row, col)` for side `color`.
    pub(crate) fn highlight(&mut self, row: usize, col: usize, color: Color)
        requires
            row < 8,
            col < 8,
        ensures
            final(self)@ == (Position {
                highlighted: old(self)@.highlighted.insert(
                    square_index(row as int, col as int),
                    color,
                ),
                ..old(self)@
            }),
    {
        self.highlighted.insert(row * 8 + col, color);
    }
}

/// The highlighted squares among the first `n` in row-major order.
pub open spec fn highlighted_squares(highlighted: Map<usize, Color>, n: nat) -> Seq<
    HighlightedSquare,
>
    decreases n,
{
    if n == 0 {
        Seq::empty()
    } else {
        let rest = highlighted_squares(highlighted, (n - 1) as nat);
        let key = (n - 1) as usize;
        if highlighted.contains_key(key) {
            rest.push(
                HighlightedSquare {
                    row: ((n - 1) / 8) as usize,
                    col: ((n - 1) % 8) as usize,
                    color: highlighted[key],
                },
            )
        } else {
            rest
        }
    }
}

/// Once a king is found among the first `n` squares, looking further finds
/// the same one.
pub proof fn lemma_king_square_stays(
    pieces: Map<(int, int), Piece>,
    color: Color,
    n: nat,
    m: nat,
)
    requires
        n <= m,
        king_square(pieces, color, n) is Some,
    ensures
        king_square(pieces, color, m) == king_square(pieces, color, n),
    decreases m,
{
    if n < m {
        lemma_king_square_stays(pieces, color, n, (m - 1) as nat);
    }
}

} // verus!
