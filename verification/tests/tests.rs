use ajedrez::{BoardAsFEN, ChessBoard, Color, Piece, PieceType};

#[test]
fn test_board_fen_code() {
    let mut board = ChessBoard::new();
    // Set up the pieces on the chessboard
    board.set_piece(8, &'a', Color::White, PieceType::Rook);
    board.set_piece(8, &'h', Color::White, PieceType::Rook);
    board.set_piece(1, &'a', Color::Black, PieceType::Rook);
    board.set_piece(1, &'h', Color::Black, PieceType::Rook);

    assert_eq!("R6R/8/8/8/8/8/8/r6r w - - 0 0", board.as_fen());
}

#[test]
fn tests_test_board_fen_code() {
    let mut board = ChessBoard::new();
    // Set up the pieces on the chessboard
    board.set_piece_0(0, 0, Some(Piece::new(Color::White, PieceType::Rook)));
    board.set_piece_0(0, 7, Some(Piece::new(Color::White, PieceType::Rook)));
    board.set_piece_0(7, 0, Some(Piece::new(Color::Black, PieceType::Rook)));
    board.set_piece_0(7, 7, Some(Piece::new(Color::Black, PieceType::Rook)));

    assert_eq!("R6R/8/8/8/8/8/8/r6r w - - 0 0", board.as_fen());
}
