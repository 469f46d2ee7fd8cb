use hex_chess_core::{
    BoardError, BoardType, Color, Game, GameError, GameState, HexCoord, PawnMovement, Piece,
    PieceType, VariantConfig, Variants,
};

#[test]
fn test_game_creation() {
    let variant = Variants::mini_hexchess();
    let game = Game::new(variant);
    assert_eq!(game.current_player, Color::White);
    assert_eq!(game.game_state, GameState::Playing);
}

#[test]
fn test_move_validation() {
    let variant = Variants::mini_hexchess();
    let game = Game::new(variant);

    let result = game.validate_move(HexCoord::new(0, 0), HexCoord::new(1, 0));
    assert!(result.is_err());
}

fn custom(radius: i32, pieces: &[((i32, i32), PieceType, Color)]) -> VariantConfig {
    let mut starting_positions = Vec::new();
    for &((q, r), kind, color) in pieces {
        starting_positions.push((HexCoord::new(q, r), Piece::new(kind, color)));
    }
    VariantConfig {
        name: "Test".to_string(),
        description: "Test position".to_string(),
        board_type: BoardType::Regular { radius },
        starting_positions,
        pawn_movement: PawnMovement::Standard,
        special_rules: Vec::new(),
    }
}

const RING: [(i32, i32); 6] = [(1, 0), (1, -1), (0, -1), (-1, 0), (-1, 1), (0, 1)];

#[test]
fn checkmate_of_a_surrounded_king() {
    let mut pieces = vec![((0, 0), PieceType::King, Color::White)];
    for &c in RING.iter().take(5) {
        pieces.push((c, PieceType::Rook, Color::Black));
    }
    let mut game = Game::new(custom(1, &pieces));
    game.current_player = Color::Black;
    assert_eq!(game.make_move(HexCoord::new(-1, 1), HexCoord::new(0, 1)), Ok(()));
    assert_eq!(game.current_player, Color::White);
    assert_eq!(game.game_state, GameState::Checkmate(Color::Black));
    assert_eq!(game.get_result(), Some("Black wins by checkmate".to_string()));
    for &(q, r) in RING.iter() {
        assert_eq!(
            game.make_move(HexCoord::new(0, 0), HexCoord::new(q, r)),
            Err(GameError::MoveWouldPutKingInCheck)
        );
    }
    assert_eq!(game.move_history.len(), 1);
}

#[test]
fn stalemate_with_king_boxed_in() {
    let pieces = vec![
        ((2, 0), PieceType::King, Color::White),
        ((-2, 1), PieceType::Queen, Color::Black),
    ];
    let mut game = Game::new(custom(2, &pieces));
    game.current_player = Color::Black;
    assert_eq!(game.make_move(HexCoord::new(-2, 1), HexCoord::new(1, -2)), Ok(()));
    assert_eq!(game.game_state, GameState::Stalemate);
    assert_eq!(game.get_result(), Some("Draw by stalemate".to_string()));
    for &(q, r) in &[(2, -1), (1, 0), (1, 1)] {
        assert_eq!(
            game.make_move(HexCoord::new(2, 0), HexCoord::new(q, r)),
            Err(GameError::MoveWouldPutKingInCheck)
        );
    }
}

#[test]
fn check_is_reported() {
    let pieces = vec![
        ((0, 2), PieceType::King, Color::White),
        ((2, -2), PieceType::Rook, Color::White),
        ((0, -2), PieceType::King, Color::Black),
    ];
    let mut game = Game::new(custom(2, &pieces));
    assert_eq!(game.make_move(HexCoord::new(2, -2), HexCoord::new(1, -2)), Ok(()));
    assert_eq!(game.game_state, GameState::Check(Color::Black));
    assert_eq!(game.get_result(), None);
}

#[test]
fn errors_of_make_move() {
    let mut game = Game::new(Variants::mini_hexchess());
    assert_eq!(
        game.make_move(HexCoord::new(0, 0), HexCoord::new(0, -1)),
        Err(GameError::NoPieceAtCoordinate)
    );
    assert_eq!(
        game.make_move(HexCoord::new(0, -1), HexCoord::new(0, 0)),
        Err(GameError::NotYourPiece)
    );
    assert_eq!(
        game.make_move(HexCoord::new(0, 1), HexCoord::new(0, -1)),
        Err(GameError::InvalidMove)
    );
    assert_eq!(game.undo_move(), Err(GameError::NoMovesToUndo));
    assert_eq!(game.move_history.len(), 0);
    assert_eq!(game.current_player, Color::White);
    assert_eq!(GameError::NotYourPiece.message(), "Not your piece");
    assert_eq!(
        GameError::BoardError(BoardError::InvalidCoordinate).message(),
        "Invalid coordinate for this board"
    );
}

#[test]
fn pinned_piece_cannot_expose_king() {
    let pieces = vec![
        ((0, 2), PieceType::King, Color::White),
        ((0, 1), PieceType::Knight, Color::White),
        ((0, -2), PieceType::Rook, Color::Black),
    ];
    let mut game = Game::new(custom(2, &pieces));
    assert_eq!(
        game.make_move(HexCoord::new(0, 1), HexCoord::new(2, 0)),
        Err(GameError::MoveWouldPutKingInCheck)
    );
    assert_eq!(game.board.get_piece(HexCoord::new(0, 1)), Some(&Piece::new(PieceType::Knight, Color::White)));
}

#[test]
fn make_then_undo_restores_position() {
    let pieces = vec![
        ((0, 2), PieceType::King, Color::White),
        ((0, 0), PieceType::Rook, Color::White),
        ((2, -2), PieceType::Bishop, Color::Black),
        ((0, -2), PieceType::King, Color::Black),
    ];
    let mut game = Game::new(custom(2, &pieces));
    let before = game.board.clone();
    assert_eq!(game.make_move(HexCoord::new(0, 0), HexCoord::new(2, -2)), Ok(()));
    assert_eq!(game.move_history.len(), 1);
    let record = game.move_history[0];
    assert_eq!(record.captured_piece, Some(Piece::new(PieceType::Bishop, Color::Black)));
    assert_eq!(record.piece, Piece::new(PieceType::Rook, Color::White));
    assert_eq!(record.move_number, 1);
    assert_eq!(game.current_player, Color::Black);
    assert_eq!(game.game_state, GameState::Check(Color::Black));
    assert_eq!(game.undo_move(), Ok(()));
    assert_eq!(game.current_player, Color::White);
    assert_eq!(game.move_history.len(), 0);
    let mut now = game.board.pieces.clone();
    let mut was = before.pieces.clone();
    now.sort_by_key(|e| (e.0.q, e.0.r));
    was.sort_by_key(|e| (e.0.q, e.0.r));
    assert_eq!(now, was);
    // The bishop gives check in the restored position.
    assert_eq!(game.game_state, GameState::Check(Color::White));
}

#[test]
fn move_numbers_count_full_moves() {
    let mut game = Game::new(Variants::mini_hexchess());
    game.make_move(HexCoord::new(0, 1), HexCoord::new(0, 0)).unwrap();
    game.make_move(HexCoord::new(0, -1), HexCoord::new(0, 0)).unwrap_err();
    game.make_move(HexCoord::new(1, -1), HexCoord::new(1, 0)).unwrap();
    game.make_move(HexCoord::new(-1, 1), HexCoord::new(-1, 0)).unwrap();
    let numbers: Vec<u32> = game.move_history.iter().map(|m| m.move_number).collect();
    assert_eq!(numbers, vec![1, 1, 2]);
}

#[test]
fn legal_move_listing_for_side_to_move() {
    let game = Game::new(Variants::mini_hexchess());
    let moves = game.get_valid_moves();
    assert_eq!(moves.len(), 7);
    for (c, targets) in moves.iter() {
        assert_eq!(game.board.get_piece(*c).unwrap().color, Color::White);
        assert!(!targets.is_empty());
    }
    let king = moves.iter().find(|e| e.0 == HexCoord::new(0, 3)).unwrap();
    assert_eq!(king.1, vec![HexCoord::new(1, 2)]);
}

#[test]
fn draw_result_text() {
    let mut game = Game::new(Variants::mini_hexchess());
    game.game_state = GameState::Draw;
    assert_eq!(game.get_result(), Some("Draw".to_string()));
    game.game_state = GameState::Checkmate(Color::White);
    assert_eq!(game.get_result(), Some("White wins by checkmate".to_string()));
}

#[test]
fn glinski_game_starts_playable() {
    let game = Game::new(Variants::glinski_chess());
    assert_eq!(game.game_state, GameState::Playing);
    assert_eq!(game.get_valid_moves().len(), 18);
}
