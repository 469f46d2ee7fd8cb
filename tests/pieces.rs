use hex_chess_core::{Board, BoardType, Color, HexCoord, Piece, PieceType};

#[test]
fn test_king_moves() {
    let board = Board::new(BoardType::Regular { radius: 2 });
    let king = PieceType::King;
    let center = HexCoord::new(0, 0);

    let moves = king.get_moves(center, &board);
    // The King steps to the six edge-adjacent cells only.
    assert_eq!(moves.len(), 6);
}

#[test]
fn test_rook_moves() {
    let board = Board::new(BoardType::Regular { radius: 2 });
    let rook = PieceType::Rook;
    let center = HexCoord::new(0, 0);

    let moves = rook.get_moves(center, &board);
    assert!(moves.len() > 6);
}

#[test]
fn test_piece_symbols() {
    let white_king = Piece::new(PieceType::King, Color::White);
    let black_king = Piece::new(PieceType::King, Color::Black);

    assert_eq!(white_king.symbol(), 'K');
    assert_eq!(black_king.symbol(), 'k');
}

#[test]
fn all_symbols() {
    let kinds = [
        (PieceType::Queen, 'Q'),
        (PieceType::Rook, 'R'),
        (PieceType::Bishop, 'B'),
        (PieceType::Knight, 'N'),
        (PieceType::Pawn, 'P'),
        (PieceType::Chancellor, 'C'),
        (PieceType::Archbishop, 'A'),
    ];
    for (k, s) in kinds.iter() {
        assert_eq!(Piece::new(*k, Color::White).symbol(), *s);
        assert_eq!(Piece::new(*k, Color::Black).symbol(), s.to_ascii_lowercase());
    }
    assert_eq!(Color::White.opponent(), Color::Black);
}

#[test]
fn move_counts_on_empty_board() {
    let board = Board::new(BoardType::Regular { radius: 2 });
    let c = HexCoord::new(0, 0);
    assert_eq!(PieceType::Rook.get_moves(c, &board).len(), 12);
    assert_eq!(PieceType::Bishop.get_moves(c, &board).len(), 6);
    assert_eq!(PieceType::Queen.get_moves(c, &board).len(), 18);
    assert_eq!(PieceType::Knight.get_moves(c, &board).len(), 6);
    assert_eq!(PieceType::Chancellor.get_moves(c, &board).len(), 18);
    assert_eq!(PieceType::Archbishop.get_moves(c, &board).len(), 12);
    let big = Board::new(BoardType::Regular { radius: 5 });
    assert_eq!(PieceType::Knight.get_moves(c, &big).len(), 12);
    assert_eq!(PieceType::Rook.get_moves(c, &big).len(), 30);
    assert_eq!(PieceType::Bishop.get_moves(c, &big).len(), 12);
}

#[test]
fn sliding_stops_at_pieces() {
    let mut board = Board::new(BoardType::Regular { radius: 3 });
    let c = HexCoord::new(0, 0);
    board.place_piece(c, Piece::new(PieceType::Rook, Color::White)).unwrap();
    board.place_piece(HexCoord::new(2, 0), Piece::new(PieceType::Pawn, Color::Black)).unwrap();
    board.place_piece(HexCoord::new(0, -2), Piece::new(PieceType::Pawn, Color::White)).unwrap();
    let moves = PieceType::Rook.get_moves(c, &board);
    assert_eq!(&moves[0..2], &[HexCoord::new(1, 0), HexCoord::new(2, 0)]);
    assert!(!moves.contains(&HexCoord::new(3, 0)));
    assert!(moves.contains(&HexCoord::new(0, -1)));
    assert!(!moves.contains(&HexCoord::new(0, -2)));
    assert_eq!(moves.len(), 2 + 3 + 1 + 3 + 3 + 3);
}

#[test]
fn white_pawn_forward_and_captures() {
    let mut board = Board::new(BoardType::Regular { radius: 2 });
    let p = HexCoord::new(0, 1);
    board.place_piece(p, Piece::new(PieceType::Pawn, Color::White)).unwrap();
    assert_eq!(PieceType::Pawn.get_moves(p, &board), vec![HexCoord::new(0, 0)]);
    board.place_piece(HexCoord::new(-1, 0), Piece::new(PieceType::Knight, Color::Black)).unwrap();
    board.place_piece(HexCoord::new(1, 0), Piece::new(PieceType::Knight, Color::White)).unwrap();
    assert_eq!(
        PieceType::Pawn.get_moves(p, &board),
        vec![HexCoord::new(0, 0), HexCoord::new(-1, 0)]
    );
    board.place_piece(HexCoord::new(1, 0), Piece::new(PieceType::Knight, Color::Black)).unwrap();
    assert_eq!(
        PieceType::Pawn.get_moves(p, &board),
        vec![HexCoord::new(0, 0), HexCoord::new(-1, 0), HexCoord::new(1, 0)]
    );
    board.place_piece(HexCoord::new(0, 0), Piece::new(PieceType::Rook, Color::Black)).unwrap();
    assert_eq!(
        PieceType::Pawn.get_moves(p, &board),
        vec![HexCoord::new(-1, 0), HexCoord::new(1, 0)]
    );
}

#[test]
fn black_pawn_moves_the_other_way() {
    let mut board = Board::new(BoardType::Regular { radius: 2 });
    let p = HexCoord::new(0, 1);
    board.place_piece(p, Piece::new(PieceType::Pawn, Color::Black)).unwrap();
    board.place_piece(HexCoord::new(-1, 2), Piece::new(PieceType::Pawn, Color::White)).unwrap();
    assert_eq!(
        PieceType::Pawn.get_moves(p, &board),
        vec![HexCoord::new(0, 2), HexCoord::new(-1, 2)]
    );
    assert!(PieceType::Pawn.get_moves(HexCoord::new(0, 0), &board).is_empty());
}
