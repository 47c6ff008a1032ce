use tetris_engine::{offsets_for, PieceKind};

const KINDS: [PieceKind; 7] = [
    PieceKind::O,
    PieceKind::I,
    PieceKind::T,
    PieceKind::L,
    PieceKind::J,
    PieceKind::S,
    PieceKind::Z,
];

fn sorted(mut cells: Vec<(i32, i32)>) -> Vec<(i32, i32)> {
    cells.sort();
    cells
}

#[test]
fn o_piece_is_a_two_by_two_block() {
    assert_eq!(
        sorted(offsets_for(PieceKind::O).to_vec()),
        vec![(0, 0), (0, 1), (1, 0), (1, 1)]
    );
}

#[test]
fn i_piece_is_four_in_a_row() {
    assert_eq!(offsets_for(PieceKind::I), [(-1, 0), (0, 0), (1, 0), (2, 0)]);
}

#[test]
fn t_piece_is_a_stem_on_a_bar() {
    assert_eq!(
        sorted(offsets_for(PieceKind::T).to_vec()),
        vec![(-1, 1), (0, 0), (0, 1), (1, 1)]
    );
}

#[test]
fn l_and_j_pieces_are_a_bar_with_a_corner() {
    assert_eq!(
        sorted(offsets_for(PieceKind::L).to_vec()),
        vec![(0, 0), (0, 1), (1, 1), (2, 1)]
    );
    assert_eq!(
        sorted(offsets_for(PieceKind::J).to_vec()),
        vec![(0, 1), (1, 1), (2, 0), (2, 1)]
    );
}

#[test]
fn s_and_z_pieces_are_two_shifted_pairs() {
    assert_eq!(
        sorted(offsets_for(PieceKind::S).to_vec()),
        vec![(-1, 1), (0, 0), (0, 1), (1, 0)]
    );
    assert_eq!(
        sorted(offsets_for(PieceKind::Z).to_vec()),
        vec![(-1, 0), (0, 0), (0, 1), (1, 1)]
    );
}

#[test]
fn every_shape_has_four_distinct_cells() {
    for kind in KINDS {
        let cells = offsets_for(kind);
        assert_eq!(cells.len(), 4);
        for i in 0..4 {
            for j in (i + 1)..4 {
                assert_ne!(cells[i], cells[j], "{:?}", kind);
            }
        }
    }
}

#[test]
fn every_shape_hangs_together() {
    for kind in KINDS {
        let cells = offsets_for(kind);
        for i in 1..4 {
            let touches_earlier = (0..i).any(|j| {
                let dx = (cells[i].0 - cells[j].0).abs();
                let dy = (cells[i].1 - cells[j].1).abs();
                dx + dy == 1
            });
            assert!(touches_earlier, "{:?} cell {}", kind, i);
        }
    }
}

#[test]
fn every_shape_stays_in_its_box() {
    for kind in KINDS {
        for (dx, dy) in offsets_for(kind) {
            assert!((-1..=2).contains(&dx), "{:?}", kind);
            assert!((0..=1).contains(&dy), "{:?}", kind);
        }
    }
}

#[test]
fn no_two_kinds_share_a_shape() {
    for a in 0..7 {
        for b in (a + 1)..7 {
            assert_ne!(
                sorted(offsets_for(KINDS[a]).to_vec()),
                sorted(offsets_for(KINDS[b]).to_vec())
            );
        }
    }
}
