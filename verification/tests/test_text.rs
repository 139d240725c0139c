use ajedrez::notation::{File2Index, Rank2Index};
use ajedrez::{
    c_file_to_index, pos_from_str, rank_to_index, BoardAsFEN, ChessBoard, Color, FENStringParsing,
    Move, ParseError, Piece, PieceType, Square,
};

#[test]
fn test_pos_from_str() {
    assert_eq!(Ok((7, 0)), pos_from_str("a1"));
    assert_eq!(Ok((0, 7)), pos_from_str("h8"));
    assert_eq!(Ok((4, 4)), pos_from_str("e4"));
    assert_eq!(Err(ParseError::StringTooShort), pos_from_str(""));
    assert_eq!(Err(ParseError::StringTooShort), pos_from_str("e"));
    assert_eq!(Err(ParseError::StringTooShort), pos_from_str("e44"));
    assert_eq!(Err(ParseError::InvalidPositionFile), pos_from_str("i4"));
    assert_eq!(Err(ParseError::InvalidPositionFile), pos_from_str("E4"));
    assert_eq!(Err(ParseError::InvalidPositionFile), pos_from_str("19"));
    assert_eq!(Err(ParseError::InvalidPositionRank), pos_from_str("e9"));
    assert_eq!(Err(ParseError::InvalidPositionRank), pos_from_str("e0"));
    // Two bytes that are one character.
    assert_eq!(Err(ParseError::InvalidPositionFile), pos_from_str("é"));
}

#[test]
fn test_rank_and_file_indices() {
    assert_eq!(7, rank_to_index(1));
    assert_eq!(0, rank_to_index(8));
    assert_eq!(4, rank_to_index(4));
    assert_eq!(0, c_file_to_index(&'a'));
    assert_eq!(7, c_file_to_index(&'h'));
    assert_eq!(Ok(0), 'a'.file_to_zero_base_index());
    assert_eq!(Ok(7), "h4".file_to_zero_base_index());
    assert_eq!(
        Err(String::from(
            "File must be a letter between a and h, you provided x"
        )),
        'x'.file_to_zero_base_index()
    );
    assert_eq!(Ok(0), '1'.rank_to_zero_base_index());
    assert_eq!(Ok(7), "8".rank_to_zero_base_index());
    assert_eq!(
        Err(String::from(
            "Rank must be a digit between 1 and 8, you provided 9"
        )),
        "9".rank_to_zero_base_index()
    );
}

#[test]
fn test_to_string() {
    assert_eq!("w", Color::White.to_string());
    assert_eq!("b", Color::Black.to_string());
    assert_eq!(
        "w rook",
        Piece::new(Color::White, PieceType::Rook).to_string()
    );
    assert_eq!(
        "b knight",
        Piece::new(Color::Black, PieceType::Knight).to_string()
    );
    let square = Square {
        piece: Some(Piece::new(Color::Black, PieceType::Queen)),
        rank: 10,
        file: 'z',
        row: 0,
        col: 0,
    };
    assert_eq!("10z", square.to_string());
}

#[test]
fn test_piece_letters_and_symbols() {
    let kinds = [
        (PieceType::Pawn, 'P', 'p', '♙', '♟'),
        (PieceType::Knight, 'N', 'n', '♘', '♞'),
        (PieceType::Bishop, 'B', 'b', '♗', '♝'),
        (PieceType::Rook, 'R', 'r', '♖', '♜'),
        (PieceType::Queen, 'Q', 'q', '♕', '♛'),
        (PieceType::King, 'K', 'k', '♔', '♚'),
    ];
    for (kind, white, black, white_symbol, black_symbol) in kinds {
        assert_eq!(white, Piece::new(Color::White, kind).as_fen());
        assert_eq!(black, Piece::new(Color::Black, kind).as_fen());
        assert_eq!(
            white_symbol,
            Piece::new(Color::White, kind).to_unicode_symbol()
        );
        assert_eq!(
            black_symbol,
            Piece::new(Color::Black, kind).to_unicode_symbol()
        );
    }
    assert_eq!(
        PieceType::King,
        Piece::new_from_algebraic(Color::White, "K").piece_type
    );
    assert_eq!(
        PieceType::Knight,
        Piece::new_from_algebraic(Color::White, "N").piece_type
    );
    assert_eq!(
        PieceType::Pawn,
        Piece::new_from_algebraic(Color::White, "e").piece_type
    );
    assert_eq!(
        PieceType::Pawn,
        Piece::new_from_algebraic(Color::White, "KQ").piece_type
    );
    assert_eq!(
        PieceType::Pawn,
        Piece::new_from_algebraic(Color::White, "").piece_type
    );
}

#[test]
fn test_piece_equality_leaves_moves_aside() {
    let fresh = Piece::new(Color::White, PieceType::Rook);
    let moved = Piece {
        color: Color::White,
        piece_type: PieceType::Rook,
        moves: 3,
    };
    assert_eq!(fresh, moved);
    assert_ne!(fresh, Piece::new(Color::Black, PieceType::Rook));
    assert_ne!(fresh, Piece::new(Color::White, PieceType::Queen));
}

#[test]
fn test_square_queries() {
    let mut square = Square::default();
    assert!(square.is_empty());
    assert!(!square.is_not_empty());
    assert!(!square.is(PieceType::Rook));
    assert!(!square.has_not_moved());
    assert_eq!(' ', square.as_fen());
    square.piece = Some(Piece::new(Color::Black, PieceType::Rook));
    assert!(!square.is_empty());
    assert!(square.is_not_empty());
    assert!(square.is(PieceType::Rook));
    assert!(!square.is(PieceType::King));
    assert!(square.has_not_moved());
    assert_eq!('r', square.as_fen());
    square.piece = Some(Piece {
        color: Color::Black,
        piece_type: PieceType::Rook,
        moves: 1,
    });
    assert!(!square.has_not_moved());
}

#[test]
fn test_get_square_a() {
    let board = "8/8/8/8/4P3/8/8/8 w - - 0 0".parse_fen().unwrap();
    let square = board.get_square_a("e4").unwrap();
    assert_eq!((4, 'e', 4, 4), (square.rank, square.file, square.row, square.col));
    assert_eq!('P', square.as_fen());
    let square = board.get_square_a("a8").unwrap();
    assert_eq!((8, 'a', 0, 0), (square.rank, square.file, square.row, square.col));
    assert!(square.is_empty());
    assert_eq!(None, board.get_square_a("i1"));
    assert_eq!(None, board.get_square_a("e44"));
    assert_eq!(None, board.get_piece_a("zz"));
    assert_eq!(None, board.get_piece_a(""));
}

#[test]
fn test_parse_fen_refuses() {
    let refused = [
        "",
        "8/8/8/8/8/8/8/8",
        "8/8/8/8/8/8/8/8 w - - 0",
        "8/8/8/8/8/8/8/8 w - - 0 0 0",
        "8/8/8/8/8/8/8/8  w - - 0 0",
        "8/8/8/8/8/8/8/8 w - - 0 0 ",
        " 8/8/8/8/8/8/8/8 w - - 0 0",
        "8/8/8/8/8/8/8 w - - 0 0",
        "8/8/8/8/8/8/8/8/8 w - - 0 0",
        "8/8/8/8/8/8/8/7 w - - 0 0",
        "8/8/8/8/8/8/8/9 w - - 0 0",
        "8/8/8/8/8/8/8/44p w - - 0 0",
        "8/8/8/8/8/8/8/ppppppppp w - - 0 0",
        "8/8/8/8/8/8/8/0pppppppp w - - 0 0",
        "8/8/8/8/8/8/8/7x w - - 0 0",
        "8/8/8/8/8/8//8 w - - 0 0",
        "8/8/8/8/8/8/8/8 x - - 0 0",
        "8/8/8/8/8/8/8/8 W - - 0 0",
        "8/8/8/8/8/8/8/8 wb - - 0 0",
        "8/8/8/8/8/8/8/8 w KQx - 0 0",
        "8/8/8/8/8/8/8/8 w - e9 0 0",
        "8/8/8/8/8/8/8/8 w - i3 0 0",
        "8/8/8/8/8/8/8/8 w - e 0 0",
        "8/8/8/8/8/8/8/8 w - -- 0 0",
        "8/8/8/8/8/8/8/8 w - - x 0",
        "8/8/8/8/8/8/8/8 w - - 0 -1",
        "8/8/8/8/8/8/8/8 w - - +1 0",
        "8/8/8/8/8/8/8/8 w - - 4294967296 0",
        "8/8/8/8/8/8/8/8 w - - 0 99999999999999999999999",
        "8/8/8/8/8/8/8/♔7 w - - 0 0",
    ];
    for text in refused {
        assert_eq!(
            Some(ParseError::InvalidFENString),
            text.parse_fen().err(),
            "{}",
            text
        );
    }
}

#[test]
fn test_parse_fen_fields() {
    let board = "4k3/8/8/8/4P3/8/8/4K3 b Kq e3 7 4294967295".parse_fen().unwrap();
    assert_eq!(Color::Black, board.active_color);
    assert_eq!(7, board.half_moves);
    assert_eq!(4294967295, board.full_moves);
    let target = board.passant_square.unwrap();
    assert_eq!((3, 'e', 5, 4), (target.rank, target.file, target.row, target.col));
    assert!(target.is_empty());
    assert_eq!(0, board.highlighted.len());
    assert_eq!(0, board.get_piece_0(0, 4).unwrap().moves);
    assert_eq!("4k3/8/8/8/4P3/8/8/4K3 b - e3 7 4294967295", board.as_fen());
    // Digits next to each other and leading zeros are read; they are not
    // written.
    let board = "44/p16/8/8/8/8/8/8 w - - 007 010".parse_fen().unwrap();
    assert_eq!("8/p7/8/8/8/8/8/8 w - - 7 10", board.as_fen());
}

#[test]
fn test_as_fen_en_passant_that_names_no_square() {
    let mut board = ChessBoard::new();
    board.passant_square = Some(Square::default());
    assert_eq!("8/8/8/8/8/8/8/8 w - - 0 0", board.as_fen());
    board.passant_square = board.get_square_a("h6");
    board.half_moves = 12;
    board.full_moves = 340;
    board.active_color = Color::Black;
    assert_eq!("8/8/8/8/8/8/8/8 b - h6 12 340", board.as_fen());
}

#[test]
fn test_fen_round_trips() {
    let lines = [
        "rnbqkbnr/pppppppp/8/8/8/8/PPPPPPPP/RNBQKBNR w KQkq - 0 0",
        "5r2/7q/6N1/8/1P1k4/5Q2/B7/3R2K1 w - - 0 0",
        "r3k2r/8/8/8/8/8/8/R3K2R b KQkq - 3 17",
        "1n6/8/8/8/8/5N2/8/8 b - a3 0 1",
        "p1p1p1p1/1p1p1p1p/8/8/8/8/PPPPPPPP/8 w - - 10 20",
    ];
    for line in lines {
        let board = line.parse_fen().unwrap();
        assert_eq!(line, board.as_fen());
        let again = board.as_fen().parse_fen().unwrap();
        assert_eq!(line, again.as_fen());
    }
}

#[test]
fn test_board_art() {
    colored::control::set_override(false);
    let mut board = "r6k/8/8/8/8/8/8/K6R w - - 0 0".parse_fen().unwrap();
    let art = board.as_str();
    let expected = "    a   b   c   d   e   f   g   h\n\
\x20 ┌───┬───┬───┬───┬───┬───┬───┬───┐\n\
0 │ ♜ │   │   │   │   │   │   │ ♚ │ 8\n\
\x20 ├───┼───┼───┼───┼───┼───┼───┼───┤\n\
1 │   │   │   │   │   │   │   │   │ 7\n\
\x20 ├───┼───┼───┼───┼───┼───┼───┼───┤\n\
2 │   │   │   │   │   │   │   │   │ 6\n\
\x20 ├───┼───┼───┼───┼───┼───┼───┼───┤\n\
3 │   │   │   │   │   │   │   │   │ 5\n\
\x20 ├───┼───┼───┼───┼───┼───┼───┼───┤\n\
4 │   │   │   │   │   │   │   │   │ 4\n\
\x20 ├───┼───┼───┼───┼───┼───┼───┼───┤\n\
5 │   │   │   │   │   │   │   │   │ 3\n\
\x20 ├───┼───┼───┼───┼───┼───┼───┼───┤\n\
6 │   │   │   │   │   │   │   │   │ 2\n\
\x20 ├───┼───┼───┼───┼───┼───┼───┼───┤\n\
7 │ ♔ │   │   │   │   │   │   │ ♖ │ 1\n\
\x20 └───┴───┴───┴───┴───┴───┴───┴───┘\n\
\x20   0   1   2   3   4   5   6   7\n";
    assert_eq!(expected, art);
    assert_eq!("r6k/8/8/8/8/8/8/K6R w - - 0 0", board.as_fen());

    // With colors: yellow for White, blue for Black, and black on the
    // mover's color for the two squares that the last move touched.
    colored::control::set_override(true);
    board.move_piece(Move::new((7, 7), (6, 7))).unwrap();
    let art = board.as_str();
    let lines: Vec<&str> = art.lines().collect();
    assert_eq!(19, lines.len());
    assert_eq!(
        "0 │ \x1B[34m♜\x1B[0m │   │   │   │   │   │   │ \x1B[34m♚\x1B[0m │ 8",
        lines[2]
    );
    assert_eq!(
        "6 │   │   │   │   │   │   │   │ \x1B[43;30m♖\x1B[0m │ 2",
        lines[14]
    );
    assert_eq!(
        "7 │ \x1B[33m♔\x1B[0m │   │   │   │   │   │   │ \x1B[43;30m \x1B[0m │ 1",
        lines[16]
    );
    board.move_piece(Move::new((0, 0), (0, 1))).unwrap();
    let art = board.as_str();
    let lines: Vec<&str> = art.lines().collect();
    assert_eq!(
        "0 │ \x1B[44;30m \x1B[0m │ \x1B[44;30m♜\x1B[0m │   │   │   │   │   │ \x1B[34m♚\x1B[0m │ 8",
        lines[2]
    );
    assert_eq!(
        "6 │   │   │   │   │   │   │   │ \x1B[43;30m♖\x1B[0m │ 2",
        lines[14]
    );
}
