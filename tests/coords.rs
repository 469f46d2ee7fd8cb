use hex_chess_core::{file_rank_to_axial, BoardType, HexCoord};

#[test]
fn test_hex_coord_operations() {
    let coord1 = HexCoord::new(1, 2);
    let coord2 = HexCoord::new(3, 1);

    assert_eq!(coord1 + coord2, HexCoord::new(4, 3));
    assert_eq!(coord2 - coord1, HexCoord::new(2, -1));
}

#[test]
fn test_distance_calculation() {
    let center = HexCoord::new(0, 0);
    let neighbor = HexCoord::new(1, 0);
    let far = HexCoord::new(2, 1);

    assert_eq!(center.distance_to(neighbor), 1);
    // Cube components of (2, 1) are (2, 1, -3): the hex distance is 3.
    assert_eq!(center.distance_to(far), 3);
}

#[test]
fn test_hexagon_bounds() {
    let center = HexCoord::new(0, 0);
    let edge = HexCoord::new(2, 0);
    let outside = HexCoord::new(3, 0);

    assert!(center.in_hexagon(2));
    assert!(edge.in_hexagon(2));
    assert!(!outside.in_hexagon(2));
}

#[test]
fn test_regular_board_coords() {
    let board = BoardType::Regular { radius: 1 };
    let coords = board.valid_coords();

    assert_eq!(coords.len(), 7);
    assert!(coords.contains(&HexCoord::new(0, 0)));
    assert!(coords.contains(&HexCoord::new(1, 0)));
    assert!(coords.contains(&HexCoord::new(-1, 0)));
}

#[test]
fn hexagon_membership_matches_distance_to_origin() {
    let origin = HexCoord::new(0, 0);
    for q in -6..=6 {
        for r in -6..=6 {
            let c = HexCoord::new(q, r);
            for radius in 0..=6 {
                assert_eq!(c.in_hexagon(radius), c.distance_to(origin) <= radius);
            }
        }
    }
}

#[test]
fn regular_board_cell_counts() {
    let expected = [1usize, 7, 19, 37, 61, 91];
    for (radius, count) in expected.iter().enumerate() {
        let coords = BoardType::Regular { radius: radius as i32 }.valid_coords();
        assert_eq!(coords.len(), *count);
        let r = radius as i32;
        assert_eq!(coords.len() as i32, 3 * r * r + 3 * r + 1);
    }
    assert_eq!(BoardType::Regular { radius: -1 }.valid_coords().len(), 0);
}

#[test]
fn small_and_irregular_cells() {
    let small = BoardType::Small.valid_coords();
    assert_eq!(small.len(), 37);
    assert!(small.contains(&HexCoord::new(3, -3)));
    assert!(!small.contains(&HexCoord::new(3, 1)));
    assert_eq!(BoardType::Irregular.valid_coords().len(), 0);
    assert_eq!(BoardType::Irregular.center(), HexCoord::new(0, 0));
    assert_eq!(BoardType::Small.center(), HexCoord::new(0, 0));
}

#[test]
fn valid_coords_are_distinct_and_ordered() {
    let coords = BoardType::Regular { radius: 3 }.valid_coords();
    for w in coords.windows(2) {
        assert!((w[0].q, w[0].r) < (w[1].q, w[1].r));
    }
    assert_eq!(coords[0], HexCoord::new(-3, 0));
}

#[test]
fn neighbors_are_six_distinct_adjacent_cells() {
    for &(q, r) in &[(0, 0), (5, -3), (-100, 42), (7, 7)] {
        let c = HexCoord::new(q, r);
        let n = c.neighbors();
        for i in 0..6 {
            assert_eq!(n[i].distance_to(c), 1);
            for j in 0..6 {
                if i != j {
                    assert_ne!(n[i], n[j]);
                }
            }
        }
    }
    assert_eq!(HexCoord::new(0, 0).neighbors()[1], HexCoord::new(1, -1));
}

#[test]
fn diagonal_neighbors_are_at_distance_two() {
    let c = HexCoord::new(1, 1);
    let d = c.diagonal_neighbors();
    assert_eq!(d[0], HexCoord::new(3, 0));
    assert_eq!(d[5], HexCoord::new(2, 2));
    for x in d.iter() {
        assert_eq!(x.distance_to(c), 2);
    }
}

#[test]
fn cube_round_trip() {
    let c = HexCoord::new(3, -5);
    assert_eq!(c.to_cube(), (3, -5, 2));
    assert_eq!(HexCoord::from_cube(3, -5, 2), c);
}

#[test]
fn line_to_interpolates_with_truncation() {
    let a = HexCoord::new(0, 0);
    assert_eq!(a.line_to(a), vec![a]);
    assert_eq!(
        a.line_to(HexCoord::new(3, -1)),
        vec![HexCoord::new(0, 0), HexCoord::new(1, 0), HexCoord::new(2, 0), HexCoord::new(3, -1)]
    );
    assert_eq!(
        a.line_to(HexCoord::new(-2, 1)),
        vec![HexCoord::new(0, 0), HexCoord::new(-1, 0), HexCoord::new(-2, 1)]
    );
}

#[test]
fn file_rank_mapping() {
    assert_eq!(file_rank_to_axial('g', 1), Some(HexCoord::new(1, 4)));
    assert_eq!(file_rank_to_axial('f', 1), Some(HexCoord::new(0, 5)));
    assert_eq!(file_rank_to_axial('f', 11), Some(HexCoord::new(0, -5)));
    assert_eq!(file_rank_to_axial('b', 7), Some(HexCoord::new(-4, -1)));
    assert_eq!(file_rank_to_axial('l', 1), Some(HexCoord::new(5, 0)));
    assert_eq!(file_rank_to_axial('a', 7), None);
    assert_eq!(file_rank_to_axial('g', 11), None);
    assert_eq!(file_rank_to_axial('j', 3), None);
    assert_eq!(file_rank_to_axial('c', 0), None);
    assert_eq!(file_rank_to_axial('c', 12), None);
    assert_eq!(HexCoord::from_file_rank('l', 6), Some(HexCoord::new(5, -5)));
}

#[test]
fn notation_names_each_cell_of_the_large_board_once() {
    let mut named = Vec::new();
    for file in "abcdefghijkl".chars() {
        for rank in 0..=12u8 {
            if let Some(c) = file_rank_to_axial(file, rank) {
                assert!(c.in_hexagon(5));
                named.push(c);
            }
        }
    }
    assert_eq!(named.len(), 91);
    let cells = BoardType::Regular { radius: 5 }.valid_coords();
    for c in cells.iter() {
        assert_eq!(named.iter().filter(|n| *n == c).count(), 1);
    }
}
