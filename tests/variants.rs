use hex_chess_core::{BoardType, Color, HexCoord, Piece, PieceType, SpecialRule, Variants};

#[test]
fn test_variant_creation() {
    let glinski = Variants::glinski_chess();
    assert_eq!(glinski.name, "Gliński's Chess");
    assert!(glinski.starting_positions.len() > 0);
}

#[test]
fn test_board_creation_from_variant() {
    let mini = Variants::mini_hexchess();
    let board = mini.create_board();
    assert!(board.pieces.len() > 0);
}

#[test]
fn test_all_variants() {
    let variants = Variants::all();
    assert_eq!(variants.len(), 8);
}

#[test]
fn mini_board_holds_the_placements_on_its_cells() {
    let mini = Variants::mini_hexchess();
    let cells = BoardType::Small.valid_coords();
    let on_board = mini.starting_positions.iter().filter(|e| cells.contains(&e.0)).count();
    assert_eq!(mini.starting_positions.len(), 24);
    assert_eq!(on_board, 20);
    let board = mini.create_board();
    assert_eq!(board.pieces.len(), on_board);
    assert_eq!(board.get_piece(HexCoord::new(0, 3)), Some(&Piece::new(PieceType::King, Color::White)));
    assert_eq!(board.get_piece(HexCoord::new(1, 3)), None);
}

#[test]
fn variant_boards() {
    assert_eq!(Variants::glinski_chess().create_board().pieces.len(), 36);
    assert_eq!(Variants::glinski_chess().starting_positions.len(), 36);
    assert_eq!(Variants::mccooey_chess().starting_positions.len(), 32);
    assert_eq!(Variants::mccooey_chess().create_board().pieces.len(), 18);
    assert_eq!(Variants::glinski_capablanca_chess().starting_positions.len(), 38);
    assert_eq!(Variants::glinski_capablanca_chess().create_board().pieces.len(), 36);
    assert_eq!(Variants::mccooey_capablanca_chess().create_board().pieces.len(), 18);
    let mc = Variants::mccooey_capablanca_chess();
    assert_eq!(mc.starting_positions.len(), 32);
    assert!(mc
        .starting_positions
        .contains(&(HexCoord::new(2, 4), Piece::new(PieceType::Chancellor, Color::White))));
    assert_eq!(mc.name, "McCooey-Capablanca Chess");
    assert_eq!(mc.description, "81 cells with fairy pieces");
}

fn count(v: &[(HexCoord, Piece)], kind: PieceType, color: Color) -> usize {
    v.iter().filter(|e| e.1 == Piece::new(kind, color)).count()
}

#[test]
fn glinski_armies_are_complete_and_mirrored() {
    let g = Variants::glinski_chess();
    let board = g.create_board();
    for color in [Color::White, Color::Black] {
        assert_eq!(count(&g.starting_positions, PieceType::King, color), 1);
        assert_eq!(count(&g.starting_positions, PieceType::Queen, color), 1);
        assert_eq!(count(&g.starting_positions, PieceType::Rook, color), 2);
        assert_eq!(count(&g.starting_positions, PieceType::Knight, color), 2);
        assert_eq!(count(&g.starting_positions, PieceType::Bishop, color), 3);
        assert_eq!(count(&g.starting_positions, PieceType::Pawn, color), 9);
    }
    for e in g.starting_positions.iter() {
        assert!(e.0.in_hexagon(5));
        let mirror = HexCoord::new(-e.0.q, -e.0.r);
        let other = board.get_piece(mirror).unwrap();
        assert_eq!(other.piece_type, e.1.piece_type);
        assert_ne!(other.color, e.1.color);
    }
    let king = HexCoord::from_file_rank('g', 1).unwrap();
    assert_eq!(board.get_piece(king), Some(&Piece::new(PieceType::King, Color::White)));
    assert_eq!(board.get_king(Color::Black), Some(HexCoord::new(-1, -4)));
    let d1 = HexCoord::from_file_rank('d', 1).unwrap();
    let cap = Variants::glinski_capablanca_chess().create_board();
    assert_eq!(cap.get_piece(d1), Some(&Piece::new(PieceType::Archbishop, Color::White)));
    assert_eq!(count(&Variants::glinski_capablanca_chess().starting_positions, PieceType::Knight, Color::Black), 1);
    assert!(Variants::glinski_capablanca_chess()
        .starting_positions
        .contains(&(HexCoord::new(2, 5), Piece::new(PieceType::Chancellor, Color::White))));
    assert_eq!(cap.get_piece(HexCoord::new(2, -5)), Some(&Piece::new(PieceType::Archbishop, Color::Black)));
}

#[test]
fn mccooey_armies() {
    let m = Variants::mccooey_chess();
    assert_eq!(m.description, "81 cells, regular hexagon");
    for color in [Color::White, Color::Black] {
        assert_eq!(count(&m.starting_positions, PieceType::King, color), 1);
        assert_eq!(count(&m.starting_positions, PieceType::Rook, color), 1);
        assert_eq!(count(&m.starting_positions, PieceType::Bishop, color), 2);
        assert_eq!(count(&m.starting_positions, PieceType::Pawn, color), 9);
    }
    assert!(m.starting_positions.contains(&(HexCoord::new(0, 4), Piece::new(PieceType::King, Color::White))));
    let on_board = m.starting_positions.iter().filter(|e| e.0.in_hexagon(3)).count();
    assert_eq!(on_board, 18);
    assert!(m.create_board().get_king(Color::White).is_none());
}

#[test]
fn placeholder_variants_are_empty() {
    for v in [Variants::shafran_chess(), Variants::brusky_chess(), Variants::de_vasa_chess()] {
        assert_eq!(v.board_type, BoardType::Irregular);
        assert!(v.starting_positions.is_empty());
        assert_eq!(v.create_board().valid_coords.len(), 0);
    }
}

#[test]
fn catalogue_names_and_rules() {
    let names: Vec<String> = Variants::all().into_iter().map(|v| v.name).collect();
    assert_eq!(names[0], "Gliński's Chess");
    assert_eq!(names[5], "Mini Hexchess");
    assert_eq!(names[7], "McCooey-Capablanca Chess");
    let g = Variants::glinski_chess();
    assert_eq!(g.board_type, BoardType::Regular { radius: 5 });
    assert!(matches!(g.special_rules[0], SpecialRule::EnPassant));
}
