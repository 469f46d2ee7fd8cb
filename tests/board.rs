use hex_chess_core::{Board, BoardError, BoardType, CellColor, Color, HexCoord, Piece, PieceType};

#[test]
fn test_board_creation() {
    let board = Board::new(BoardType::Regular { radius: 2 });
    assert_eq!(board.pieces.len(), 0);
    assert!(board.valid_coords.len() > 0);
}

#[test]
fn test_piece_placement() {
    let mut board = Board::new(BoardType::Regular { radius: 1 });
    let piece = Piece { piece_type: PieceType::King, color: Color::White };

    let coord = HexCoord::new(0, 0);
    assert!(board.place_piece(coord, piece.clone()).is_ok());
    assert_eq!(board.get_piece(coord), Some(&piece));
}

#[test]
fn test_invalid_coordinate() {
    let mut board = Board::new(BoardType::Regular { radius: 1 });
    let piece = Piece { piece_type: PieceType::King, color: Color::White };

    let invalid_coord = HexCoord::new(10, 10);
    assert!(board.place_piece(invalid_coord, piece).is_err());
}

fn white(kind: PieceType) -> Piece {
    Piece::new(kind, Color::White)
}

fn black(kind: PieceType) -> Piece {
    Piece::new(kind, Color::Black)
}

#[test]
fn place_replaces_and_remove_returns() {
    let mut board = Board::new(BoardType::Regular { radius: 2 });
    let c = HexCoord::new(1, -1);
    assert_eq!(board.place_piece(c, white(PieceType::Rook)), Ok(()));
    assert_eq!(board.place_piece(c, black(PieceType::Queen)), Ok(()));
    assert_eq!(board.pieces.len(), 1);
    assert_eq!(board.get_piece(c), Some(&black(PieceType::Queen)));
    assert!(board.is_occupied(c));
    assert_eq!(board.remove_piece(c), Some(black(PieceType::Queen)));
    assert_eq!(board.remove_piece(c), None);
    assert!(!board.is_occupied(c));
    assert_eq!(
        board.place_piece(HexCoord::new(3, 0), white(PieceType::Pawn)),
        Err(BoardError::InvalidCoordinate)
    );
}

#[test]
fn move_piece_reports_capture() {
    let mut board = Board::new(BoardType::Regular { radius: 2 });
    let a = HexCoord::new(0, 0);
    let b = HexCoord::new(1, 0);
    let c = HexCoord::new(2, 0);
    board.place_piece(a, white(PieceType::Rook)).unwrap();
    board.place_piece(b, black(PieceType::Knight)).unwrap();
    assert_eq!(board.move_piece(a, b), Ok(Some(black(PieceType::Knight))));
    assert_eq!(board.get_piece(b), Some(&white(PieceType::Rook)));
    assert_eq!(board.get_piece(a), None);
    assert_eq!(board.move_piece(b, c), Ok(None));
    assert_eq!(board.move_piece(a, c), Err(BoardError::NoPieceAtCoordinate));
    assert_eq!(board.move_piece(c, HexCoord::new(3, 0)), Err(BoardError::InvalidCoordinate));
    assert_eq!(board.get_piece(c), Some(&white(PieceType::Rook)));
}

#[test]
fn move_then_inverse_restores_all_but_capture() {
    let mut board = Board::new(BoardType::Regular { radius: 2 });
    let a = HexCoord::new(0, 0);
    let b = HexCoord::new(0, 2);
    let other = HexCoord::new(-1, 1);
    board.place_piece(a, white(PieceType::Queen)).unwrap();
    board.place_piece(b, black(PieceType::Pawn)).unwrap();
    board.place_piece(other, black(PieceType::Bishop)).unwrap();
    board.move_piece(a, b).unwrap();
    board.move_piece(b, a).unwrap();
    assert_eq!(board.get_piece(a), Some(&white(PieceType::Queen)));
    assert_eq!(board.get_piece(b), None);
    assert_eq!(board.get_piece(other), Some(&black(PieceType::Bishop)));
    assert_eq!(board.pieces.len(), 2);

    let before = board.pieces.clone();
    board.move_piece(a, HexCoord::new(1, 1)).unwrap();
    board.move_piece(HexCoord::new(1, 1), a).unwrap();
    let mut now = board.pieces.clone();
    let mut was = before.clone();
    now.sort_by_key(|e| (e.0.q, e.0.r));
    was.sort_by_key(|e| (e.0.q, e.0.r));
    assert_eq!(now, was);
}

#[test]
fn with_move_leaves_original_untouched() {
    let mut board = Board::new(BoardType::Small);
    let a = HexCoord::new(0, 3);
    board.place_piece(a, white(PieceType::King)).unwrap();
    let moved = board.with_move(a, HexCoord::new(0, 2)).unwrap();
    assert_eq!(board.get_piece(a), Some(&white(PieceType::King)));
    assert_eq!(moved.get_piece(a), None);
    assert_eq!(moved.get_piece(HexCoord::new(0, 2)), Some(&white(PieceType::King)));
    assert!(matches!(board.with_move(HexCoord::new(0, 0), a), Err(BoardError::NoPieceAtCoordinate)));
    assert!(matches!(board.with_move(a, HexCoord::new(9, 9)), Err(BoardError::InvalidCoordinate)));
}

#[test]
fn kings_and_colours() {
    let mut board = Board::new(BoardType::Regular { radius: 2 });
    assert_eq!(board.get_king(Color::White), None);
    board.place_piece(HexCoord::new(0, 2), white(PieceType::King)).unwrap();
    board.place_piece(HexCoord::new(0, -2), black(PieceType::King)).unwrap();
    board.place_piece(HexCoord::new(1, -2), black(PieceType::Pawn)).unwrap();
    assert_eq!(board.get_king(Color::White), Some(HexCoord::new(0, 2)));
    assert_eq!(board.get_king(Color::Black), Some(HexCoord::new(0, -2)));
    let blacks = board.get_pieces_by_color(Color::Black);
    assert_eq!(blacks.len(), 2);
    assert!(blacks.iter().all(|e| e.1.color == Color::Black));
    assert_eq!(board.get_pieces_by_color(Color::White).len(), 1);
}

#[test]
fn cell_colours_and_validity() {
    let board = Board::new(BoardType::Regular { radius: 5 });
    assert_eq!(board.valid_coords.len(), 91);
    assert_eq!(board.cell_colors.len(), 91);
    assert!(board.cell_colors.iter().all(|e| e.1 == CellColor::Light));
    assert!(board.is_valid_coord(HexCoord::new(5, -5)));
    assert!(!board.is_valid_coord(HexCoord::new(5, 1)));
    assert_eq!(BoardError::InvalidMove.message(), "Invalid move");
}

#[test]
fn valid_moves_exclude_own_pieces() {
    let mut board = Board::new(BoardType::Regular { radius: 2 });
    let r = HexCoord::new(0, 0);
    board.place_piece(r, white(PieceType::Rook)).unwrap();
    board.place_piece(HexCoord::new(1, 0), white(PieceType::Pawn)).unwrap();
    board.place_piece(HexCoord::new(-1, 0), black(PieceType::Pawn)).unwrap();
    let moves = board.get_valid_moves(r);
    assert_eq!(
        moves,
        vec![
            HexCoord::new(1, -1),
            HexCoord::new(2, -2),
            HexCoord::new(0, -1),
            HexCoord::new(0, -2),
            HexCoord::new(-1, 0),
            HexCoord::new(-1, 1),
            HexCoord::new(-2, 2),
            HexCoord::new(0, 1),
            HexCoord::new(0, 2),
        ]
    );
    assert!(board.get_valid_moves(HexCoord::new(2, 0)).is_empty());
}
