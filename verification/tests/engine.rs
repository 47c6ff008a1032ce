use tetris_engine::{init, offsets_for, update, Bag, Board, Piece, PieceKind, Tetris};

const IN_ORDER: [PieceKind; 7] = [
    PieceKind::O,
    PieceKind::I,
    PieceKind::T,
    PieceKind::L,
    PieceKind::J,
    PieceKind::S,
    PieceKind::Z,
];

fn bag_of(kinds: [PieceKind; 7]) -> Bag {
    Bag::from_order(kinds).unwrap()
}

fn i_first() -> Bag {
    bag_of([
        PieceKind::I,
        PieceKind::O,
        PieceKind::T,
        PieceKind::L,
        PieceKind::J,
        PieceKind::S,
        PieceKind::Z,
    ])
}

fn z_first() -> Bag {
    bag_of([
        PieceKind::Z,
        PieceKind::S,
        PieceKind::J,
        PieceKind::L,
        PieceKind::T,
        PieceKind::I,
        PieceKind::O,
    ])
}

fn cells_of(piece: &Piece) -> Vec<(i64, i64)> {
    let mut cells: Vec<(i64, i64)> = offsets_for(piece.kind)
        .iter()
        .map(|(dx, dy)| (piece.row as i64 + *dy as i64, piece.col as i64 + *dx as i64))
        .collect();
    cells.sort();
    cells
}

fn occupied(tetris: &Tetris) -> Vec<(i64, i64, PieceKind)> {
    let mut cells = Vec::new();
    for row in 0..20 {
        for col in 0..10 {
            if let Some(kind) = tetris.cell_at(row, col) {
                cells.push((row, col, kind));
            }
        }
    }
    cells
}

fn full_bag(bag: &Bag) -> bool {
    IN_ORDER.iter().all(|k| (0..7).filter(|i| bag.kind(*i) == *k).count() == 1)
}

/// The falling piece has four distinct cells on the board, each holding its
/// kind; the bag is full; the cursor leaves room for the piece shown next.
fn invariant_holds(tetris: &Tetris) -> bool {
    let piece = tetris.current();
    let cells = cells_of(&piece);
    let mut distinct = cells.clone();
    distinct.dedup();
    distinct.len() == 4
        && cells.iter().all(|(r, c)| {
            Board::is_in_bound(*r, *c) && tetris.cell_at(*r, *c) == Some(piece.kind)
        })
        && full_bag(&tetris.bag())
        && tetris.bag_cursor() <= 5
}

#[test]
fn with_bag_starts_with_the_first_piece_at_the_top() {
    let tetris = Tetris::with_bag(i_first());
    assert_eq!(tetris.current(), Piece::new(PieceKind::I, 0, 4));
    assert_eq!(tetris.bag_cursor(), 0);
    assert_eq!(tetris.next_kind(), PieceKind::O);
    assert_eq!(
        occupied(&tetris),
        vec![
            (0, 3, PieceKind::I),
            (0, 4, PieceKind::I),
            (0, 5, PieceKind::I),
            (0, 6, PieceKind::I),
        ]
    );
}

#[test]
fn every_kind_enters_within_the_board() {
    for first in 0..7 {
        let bag = Bag::from_draws([first, 0, 0, 0, 0, 0]).unwrap();
        let tetris = Tetris::with_bag(bag);
        assert_eq!(tetris.current(), Piece::new(IN_ORDER[first], 0, 4));
        assert_eq!(occupied(&tetris).len(), 4);
        assert!(invariant_holds(&tetris));
    }
}

#[test]
fn init_starts_play_anew() {
    let mut tetris = Tetris::with_bag(i_first());
    for _ in 0..30 {
        tetris.tick(z_first());
    }
    init(&mut tetris);
    assert_eq!(tetris.bag_cursor(), 0);
    let piece = tetris.current();
    assert_eq!(piece, Piece::new(tetris.bag().kind(0), 0, 4));
    assert_eq!(occupied(&tetris).len(), 4);
    assert!(invariant_holds(&tetris));
    assert_eq!(tetris.next_kind(), tetris.bag().kind(1));
}

#[test]
fn new_gives_what_init_gives() {
    let tetris = Tetris::new();
    assert_eq!(tetris.bag_cursor(), 0);
    assert_eq!(tetris.current(), Piece::new(tetris.bag().kind(0), 0, 4));
    assert!(invariant_holds(&tetris));
    assert_eq!(tetris, Tetris::with_bag(tetris.bag()));
}

#[test]
fn tick_moves_the_piece_one_row_down() {
    let mut tetris = Tetris::with_bag(i_first());
    tetris.tick(z_first());
    assert_eq!(tetris.current(), Piece::new(PieceKind::I, 1, 4));
    assert_eq!(
        occupied(&tetris),
        vec![
            (1, 3, PieceKind::I),
            (1, 4, PieceKind::I),
            (1, 5, PieceKind::I),
            (1, 6, PieceKind::I),
        ]
    );
    assert_eq!(tetris.bag_cursor(), 0);
    assert_eq!(tetris.bag(), i_first());
}

#[test]
fn i_piece_falls_to_the_floor_and_locks() {
    let mut tetris = Tetris::with_bag(i_first());
    assert_eq!(tetris.current(), Piece::new(PieceKind::I, 0, 4));
    for step in 1..=19 {
        assert!(tetris.can_move_down());
        tetris.tick(z_first());
        assert_eq!(tetris.current(), Piece::new(PieceKind::I, step, 4));
    }
    let on_floor = vec![
        (19, 3, PieceKind::I),
        (19, 4, PieceKind::I),
        (19, 5, PieceKind::I),
        (19, 6, PieceKind::I),
    ];
    assert_eq!(occupied(&tetris), on_floor);
    assert!(!tetris.can_move_down());
    assert_eq!(tetris.bag_cursor(), 0);

    // The twentieth step: the I piece settles and the O piece enters at
    // row 0, from where it falls one row within the same step.
    tetris.tick(z_first());
    assert_eq!(tetris.bag_cursor(), 1);
    assert_eq!(tetris.current(), Piece::new(PieceKind::O, 1, 4));
    assert_eq!(tetris.next_kind(), PieceKind::T);
    assert_eq!(
        occupied(&tetris),
        vec![
            (1, 4, PieceKind::O),
            (1, 5, PieceKind::O),
            (2, 4, PieceKind::O),
            (2, 5, PieceKind::O),
            (19, 3, PieceKind::I),
            (19, 4, PieceKind::I),
            (19, 5, PieceKind::I),
            (19, 6, PieceKind::I),
        ]
    );
}

#[test]
fn settled_pieces_stay_and_carry_the_next_one() {
    let mut tetris = Tetris::with_bag(i_first());
    for _ in 0..20 {
        tetris.tick(z_first());
    }
    // The O piece is at row 1 and comes to rest on the I piece: its lower
    // cells at row 18, right above row 19.
    for _ in 0..16 {
        assert!(tetris.can_move_down());
        tetris.tick(z_first());
    }
    assert_eq!(tetris.current(), Piece::new(PieceKind::O, 17, 4));
    assert!(!tetris.can_move_down());
    tetris.tick(z_first());
    assert_eq!(tetris.bag_cursor(), 2);
    assert_eq!(tetris.current(), Piece::new(PieceKind::T, 1, 4));
    assert_eq!(tetris.cell_at(17, 4), Some(PieceKind::O));
    assert_eq!(tetris.cell_at(18, 5), Some(PieceKind::O));
    assert_eq!(tetris.cell_at(19, 3), Some(PieceKind::I));
}

/// A board whose bottom row is occupied except for the two columns of
/// `gap`, built from pieces that lie on the bottom row: of an O piece
/// anchored there only the upper two cells are on the board.
fn floor_with_gap(gap: [i64; 2], pieces: &[Piece]) -> Board {
    let mut board = Board::new();
    for piece in pieces {
        board.stamp(piece);
    }
    for col in 0..10 {
        assert_eq!(board.kind_at(19, col).is_none(), gap.contains(&col), "column {}", col);
    }
    assert!((0..19).all(|row| (0..10).all(|col| board.kind_at(row, col).is_none())));
    board
}

#[test]
fn o_piece_over_a_gap_of_its_width_falls_into_it() {
    // Row 19 is occupied except columns 4 and 5, the two columns of the O
    // piece that enters at column 4: nothing lies below the piece, and it
    // comes to rest on the floor.
    let board = floor_with_gap(
        [4, 5],
        &[Piece::new(PieceKind::I, 19, 1), Piece::new(PieceKind::I, 19, 7)],
    );
    let mut tetris = Tetris::with_board(board, bag_of(IN_ORDER));
    assert_eq!(tetris.current(), Piece::new(PieceKind::O, 0, 4));
    let mut steps = 0;
    while tetris.can_move_down() {
        tetris.tick(z_first());
        steps += 1;
        assert!(steps <= 20);
    }
    assert_eq!(steps, 18);
    assert_eq!(tetris.current(), Piece::new(PieceKind::O, 18, 4));
    assert_eq!(tetris.cell_at(19, 4), Some(PieceKind::O));
    assert_eq!(tetris.cell_at(19, 5), Some(PieceKind::O));
    assert!((0..10).all(|c| tetris.cell_at(19, c).is_some()));
}

#[test]
fn o_piece_beside_a_gap_rests_on_its_neighbours() {
    // Row 19 is occupied except columns 5 and 6. The O piece covers
    // columns 4 and 5: the settled cell at (19, 4) stops it with its lower
    // cells at row 18, one row above the floor.
    let board = floor_with_gap(
        [5, 6],
        &[
            Piece::new(PieceKind::I, 19, 1),
            Piece::new(PieceKind::O, 19, 3),
            Piece::new(PieceKind::O, 19, 7),
            Piece::new(PieceKind::O, 19, 8),
        ],
    );
    let mut tetris = Tetris::with_board(board, bag_of(IN_ORDER));
    let mut steps = 0;
    while tetris.can_move_down() {
        tetris.tick(z_first());
        steps += 1;
        assert!(steps <= 20);
    }
    assert_eq!(steps, 17);
    assert_eq!(tetris.current(), Piece::new(PieceKind::O, 17, 4));
    assert_eq!(tetris.cell_at(18, 4), Some(PieceKind::O));
    assert_eq!(tetris.cell_at(18, 5), Some(PieceKind::O));
    assert_eq!(tetris.cell_at(19, 5), None);
    assert_eq!(tetris.cell_at(19, 4), Some(PieceKind::O));
    // The piece stands one row above the floor: the edge is not what
    // stops it.
    assert!(Board::is_in_bound(19, 5));
    assert!(!tetris.is_topped_out());
}

fn run_to_cursor(tetris: &mut Tetris, cursor: usize, fresh: Bag) {
    let mut steps = 0;
    while tetris.bag_cursor() < cursor {
        tetris.tick(fresh);
        steps += 1;
        assert!(steps < 400);
    }
}

#[test]
fn bag_is_replaced_when_the_cursor_is_second_to_last() {
    let mut tetris = Tetris::with_bag(i_first());
    // No change of bag on the way to cursor 5.
    run_to_cursor(&mut tetris, 5, z_first());
    assert_eq!(tetris.bag_cursor(), 5);
    assert_eq!(tetris.bag(), i_first());
    assert!(tetris.bag_is_low());
    assert_eq!(tetris.next_kind(), PieceKind::Z);
    assert_eq!(tetris.current().kind, PieceKind::S);

    tetris.tick(z_first());
    assert_eq!(tetris.bag(), z_first());
    assert!(!tetris.bag_is_low());
    // The piece that had just entered is still falling: the cursor is at
    // the start of the fresh bag, and what is shown as next comes from it.
    assert_eq!(tetris.current().kind, PieceKind::S);
    assert_eq!(tetris.bag_cursor(), 0);
    assert_eq!(tetris.next_kind(), PieceKind::S);
    assert_eq!(tetris.next_kind(), z_first().kind(1));
}

#[test]
fn the_piece_shown_next_is_the_piece_that_enters_next() {
    let mut tetris = Tetris::with_bag(i_first());
    for _ in 0..150 {
        let shown = tetris.next_kind();
        let cursor = tetris.bag_cursor();
        let low = tetris.bag_is_low();
        let blocked = !tetris.can_move_down();
        tetris.tick(z_first());
        if blocked && !low {
            assert_eq!(tetris.current().kind, shown);
            assert_eq!(tetris.bag_cursor(), cursor + 1);
        }
        if low {
            assert_eq!(tetris.bag(), z_first());
        }
    }
}

#[test]
fn next_kind_changes_nothing() {
    let mut tetris = Tetris::with_bag(i_first());
    tetris.tick(z_first());
    let before = tetris;
    assert_eq!(tetris.next_kind(), PieceKind::O);
    assert_eq!(tetris.next_kind(), PieceKind::O);
    assert_eq!(tetris.cell_at(1, 4), Some(PieceKind::I));
    assert_eq!(tetris, before);
}

#[test]
fn update_replaces_a_low_bag_by_a_full_one() {
    let mut tetris = Tetris::with_bag(i_first());
    run_to_cursor(&mut tetris, 5, z_first());
    let falling = tetris.current();
    update(&mut tetris);
    assert!(full_bag(&tetris.bag()));
    assert_eq!(tetris.bag_cursor(), 0);
    assert_eq!(tetris.current(), Piece::new(falling.kind, falling.row + 1, falling.col));
    assert_eq!(tetris.next_kind(), tetris.bag().kind(1));
    assert!(invariant_holds(&tetris));
}

#[test]
fn update_without_a_low_bag_is_a_plain_step() {
    let mut by_update = Tetris::with_bag(i_first());
    let mut by_tick = by_update;
    for _ in 0..60 {
        if by_update.bag_is_low() {
            break;
        }
        update(&mut by_update);
        by_tick.tick(z_first());
        assert_eq!(by_update, by_tick);
    }
    assert!(by_update.bag_cursor() >= 2);
}

#[test]
fn invariant_holds_after_every_step() {
    let mut tetris = Tetris::new();
    assert!(invariant_holds(&tetris));
    for _ in 0..1500 {
        update(&mut tetris);
        assert!(invariant_holds(&tetris));
    }
}

#[test]
fn a_step_changes_at_most_the_cells_of_the_pieces_that_move() {
    let mut tetris = Tetris::with_bag(i_first());
    for _ in 0..300 {
        let before = tetris;
        let old_piece = before.current();
        tetris.tick(z_first());
        let new_piece = tetris.current();
        let touched: Vec<(i64, i64)> = [
            cells_of(&old_piece),
            cells_of(&new_piece),
            cells_of(&Piece::new(new_piece.kind, 0, 4)),
        ]
        .concat();
        for row in 0..20 {
            for col in 0..10 {
                if !touched.contains(&(row, col)) {
                    assert_eq!(tetris.cell_at(row, col), before.cell_at(row, col));
                }
            }
        }
    }
}

#[test]
fn a_piece_that_enters_onto_settled_cells_overwrites_them() {
    // The whole column of entry is filled; the next piece is painted at the
    // top all the same and cannot fall.
    let mut board = Board::new();
    for row in 0..20 {
        board.stamp(&Piece::new(PieceKind::I, row, 4));
    }
    let mut tetris = Tetris::with_board(board, bag_of(IN_ORDER));
    assert_eq!(tetris.current(), Piece::new(PieceKind::O, 0, 4));
    assert_eq!(tetris.cell_at(0, 4), Some(PieceKind::O));
    assert_eq!(tetris.cell_at(1, 5), Some(PieceKind::O));
    assert_eq!(tetris.cell_at(0, 3), Some(PieceKind::I));
    assert!(!tetris.can_move_down());
    assert!(tetris.is_topped_out());
    tetris.tick(z_first());
    assert_eq!(tetris.bag_cursor(), 1);
    assert_eq!(tetris.current(), Piece::new(PieceKind::I, 0, 4));
    assert_eq!(tetris.cell_at(0, 4), Some(PieceKind::I));
    assert_eq!(tetris.cell_at(1, 4), Some(PieceKind::O));
    assert!(invariant_holds(&tetris));
}

#[test]
fn board_and_cell_at_show_the_same_cells() {
    let mut tetris = Tetris::with_bag(z_first());
    for _ in 0..45 {
        tetris.tick(i_first());
    }
    let board = tetris.board();
    for row in -1..21 {
        for col in -1..11 {
            assert_eq!(tetris.cell_at(row, col), board.kind_at(row, col));
        }
    }
    assert_eq!(tetris.can_move_down(), board.can_descend(&tetris.current()));
}

#[test]
fn play_on_an_empty_board_is_not_topped_out() {
    let mut tetris = Tetris::with_bag(i_first());
    // At the point of entry, but free to fall.
    assert!(!tetris.is_topped_out());
    for _ in 0..19 {
        tetris.tick(z_first());
        assert!(!tetris.is_topped_out());
    }
    // On the floor: blocked, but not where it entered.
    assert!(!tetris.can_move_down());
    assert!(!tetris.is_topped_out());
}

#[test]
fn a_pile_that_grows_to_the_top_tops_out() {
    let mut tetris = Tetris::with_bag(i_first());
    let mut steps = 0;
    while !tetris.is_topped_out() {
        tetris.tick(z_first());
        steps += 1;
        assert!(steps < 2000);
        assert!(invariant_holds(&tetris));
    }
    assert_eq!(tetris.current().row, 0);
    assert_eq!(tetris.current().col, 4);
    assert!(!tetris.can_move_down());
}
