//! The playfield: a fixed grid of cells, each empty or holding the kind of
//! the piece that covers it, and the operations that paint, erase and probe
//! a piece's footprint.

use vstd::prelude::*;
use crate::shape::{offsets_for, offsets_view, shape_offsets, PieceKind};

verus! {

/// Number of columns of the playfield.
pub const GRID_WIDTH: usize = 10;

/// Number of rows of the playfield.
pub const GRID_HEIGHT: usize = 20;

/// The mathematical playfield: rows from the top, each a row of cells.
pub type Grid = Seq<Seq<Option<PieceKind>>>;

/// A piece on the playfield: its kind and the position of its anchor.
#[derive(Clone, Copy, PartialEq, Eq, Debug, Structural)]
pub struct Piece {
    pub kind: PieceKind,
    pub row: i32,
    pub col: i32,
}

/// Whether (row, col) names a cell of the playfield. Row 0 and column 0 do.
pub open spec fn in_bounds(row: int, col: int) -> bool {
    0 <= row < GRID_HEIGHT as int && 0 <= col < GRID_WIDTH as int
}

/// A grid has the playfield's dimensions.
pub open spec fn grid_wf(g: Grid) -> bool {
    &&& g.len() == GRID_HEIGHT as int
    &&& forall|r: int| 0 <= r < GRID_HEIGHT as int ==> (#[trigger] g[r]).len() == GRID_WIDTH as int
}

/// The grid in which no cell is occupied.
pub open spec fn empty_grid() -> Grid {
    Seq::new(GRID_HEIGHT as nat, |r: int| Seq::new(GRID_WIDTH as nat, |c: int| None))
}

/// What a grid holds at (row, col); nothing outside the playfield.
pub open spec fn grid_at(g: Grid, row: int, col: int) -> Option<PieceKind> {
    if in_bounds(row, col) {
        g[row][col]
    } else {
        None
    }
}

impl Piece {
    /// The (row, column) of the piece's `i`-th cell.
    pub open spec fn cell(self, i: int) -> (int, int) {
        (self.row + shape_offsets(self.kind)[i].1, self.col + shape_offsets(self.kind)[i].0)
    }

    /// Whether one of the piece's first `n` cells lies at (row, col).
    pub open spec fn covers_among(self, n: int, row: int, col: int) -> bool {
        ||| (0 < n && self.cell(0) == (row, col))
        ||| (1 < n && self.cell(1) == (row, col))
        ||| (2 < n && self.cell(2) == (row, col))
        ||| (3 < n && self.cell(3) == (row, col))
    }

    /// Whether (row, col) belongs to the piece's footprint.
    pub open spec fn covers(self, row: int, col: int) -> bool {
        self.covers_among(4, row, col)
    }

    /// All four cells of the piece lie on the playfield.
    pub open spec fn fits(self) -> bool {
        &&& in_bounds(self.cell(0).0, self.cell(0).1)
        &&& in_bounds(self.cell(1).0, self.cell(1).1)
        &&& in_bounds(self.cell(2).0, self.cell(2).1)
        &&& in_bounds(self.cell(3).0, self.cell(3).1)
    }

    /// The same piece one row further down.
    pub open spec fn lowered(self) -> Piece
        recommends
            self.row < i32::MAX,
    {
        Piece { kind: self.kind, row: (self.row + 1) as i32, col: self.col }
    }

    /// The `i`-th cell can move one row down: the cell below it is on the
    /// playfield, and is empty or one of the piece's own cells.
    pub open spec fn cell_can_descend(self, g: Grid, i: int) -> bool {
        let below = (self.cell(i).0 + 1, self.cell(i).1);
        &&& in_bounds(below.0, below.1)
        &&& (g[below.0][below.1] is None || self.covers(below.0, below.1))
    }

    /// The piece can move one row down: each of its four cells can.
    pub open spec fn can_descend(self, g: Grid) -> bool {
        &&& self.cell_can_descend(g, 0)
        &&& self.cell_can_descend(g, 1)
        &&& self.cell_can_descend(g, 2)
        &&& self.cell_can_descend(g, 3)
    }

    pub fn new(kind: PieceKind, row: i32, col: i32) -> (piece: Piece)
        ensures
            piece == (Piece { kind, row, col }),
    {
        Piece { kind, row, col }
    }

    /// Whether (row, col) belongs to the piece's footprint.
    pub fn occupies(&self, row: i64, col: i64) -> (hit: bool)
        ensures
            hit == self.covers(row as int, col as int),
    {
        let table = offsets_for(self.kind);
        let mut hit = false;
        let mut i: usize = 0;
        while i < 4
            invariant
                i <= 4,
                offsets_view(table) == shape_offsets(self.kind),
                hit == self.covers_among(i as int, row as int, col as int),
            decreases 4 - i,
        {
            assert(offsets_view(table)[i as int] == shape_offsets(self.kind)[i as int]);
            let r: i64 = self.row as i64 + table[i].1 as i64;
            let c: i64 = self.col as i64 + table[i].0 as i64;
            if r == row && c == col {
                hit = true;
            }
            i += 1;
        }
        hit
    }
}

/// The grid after the first `n` cells of `piece` were painted with its kind.
/// Cells of the piece outside the playfield paint nothing.
pub open spec fn stamped_among(g: Grid, piece: Piece, n: int) -> Grid {
    Seq::new(
        GRID_HEIGHT as nat,
        |r: int|
            Seq::new(
                GRID_WIDTH as nat,
                |c: int|
                    if piece.covers_among(n, r, c) {
                        Some(piece.kind)
                    } else {
                        g[r][c]
                    },
            ),
    )
}

/// The grid after the piece's footprint was painted with its kind.
pub open spec fn stamped(g: Grid, piece: Piece) -> Grid {
    stamped_among(g, piece, 4)
}

/// The grid after the first `n` cells of `piece` were emptied.
pub open spec fn cleared_among(g: Grid, piece: Piece, n: int) -> Grid {
    Seq::new(
        GRID_HEIGHT as nat,
        |r: int|
            Seq::new(
                GRID_WIDTH as nat,
                |c: int|
                    if piece.covers_among(n, r, c) {
                        None
                    } else {
                        g[r][c]
                    },
            ),
    )
}

/// The grid after the piece's footprint was emptied, whatever it held.
pub open spec fn cleared(g: Grid, piece: Piece) -> Grid {
    cleared_among(g, piece, 4)
}

/// The playfield.
#[derive(Clone, Copy, Debug, PartialEq, Eq)]
pub struct Board {
    cells: [[Option<PieceKind>; 10]; 20],
}

impl View for Board {
    type V = Grid;

    closed spec fn view(&self) -> Grid {
        Seq::new(
            GRID_HEIGHT as nat,
            |r: int| Seq::new(GRID_WIDTH as nat, |c: int| self.cells[r][c]),
        )
    }
}

impl Board {
    /// Every board has the playfield's dimensions.
    pub proof fn lemma_dimensions(&self)
        ensures
            grid_wf(self@),
    {
    }

    /// An empty playfield.
    pub fn new() -> (board: Board)
        ensures
            board@ == empty_grid(),
    {
        let board = Board { cells: [[None; 10]; 20] };
        assert(board@ =~~= empty_grid());
        board
    }

    /// Whether (row, col) names a cell of the playfield.
    pub fn is_in_bound(row: i64, col: i64) -> (inside: bool)
        ensures
            inside == in_bounds(row as int, col as int),
    {
        0 <= row && row < 20 && 0 <= col && col < 10
    }

    /// What the playfield holds at (row, col): the kind of the piece that
    /// covers the cell, or nothing where the cell is empty or off the field.
    pub fn kind_at(&self, row: i64, col: i64) -> (kind: Option<PieceKind>)
        ensures
            kind == grid_at(self@, row as int, col as int),
    {
        if Self::is_in_bound(row, col) {
            let r: usize = row as usize;
            let c: usize = col as usize;
            let line = &self.cells[r];
            line[c]
        } else {
            None
        }
    }

    /// Writes one cell of the playfield.
    fn put(&mut self, r: usize, c: usize, value: Option<PieceKind>)
        requires
            r < 20,
            c < 10,
        ensures
            final(self)@ == old(self)@.update(r as int, old(self)@[r as int].update(c as int, value)),
    {
        self.cells[r][c] = value;
        assert(self@ =~~= old(self)@.update(r as int, old(self)@[r as int].update(c as int, value)));
    }

    /// Paints the piece: each of its four cells that lies on the playfield
    /// is set to the piece's kind; a cell off the playfield is passed over.
    pub fn stamp(&mut self, piece: &Piece)
        ensures
            final(self)@ == stamped(old(self)@, *piece),
    {
        let table = offsets_for(piece.kind);
        let mut i: usize = 0;
        assert(self@ =~~= stamped_among(old(self)@, *piece, 0));
        while i < 4
            invariant
                i <= 4,
                offsets_view(table) == shape_offsets(piece.kind),
                self@ == stamped_among(old(self)@, *piece, i as int),
            decreases 4 - i,
        {
            assert(offsets_view(table)[i as int] == shape_offsets(piece.kind)[i as int]);
            let r: i64 = piece.row as i64 + table[i].1 as i64;
            let c: i64 = piece.col as i64 + table[i].0 as i64;
            assert((r as int, c as int) == piece.cell(i as int));
            if Self::is_in_bound(r, c) {
                self.put(r as usize, c as usize, Some(piece.kind));
            }
            assert(self@ =~~= stamped_among(old(self)@, *piece, i as int + 1));
            i += 1;
        }
    }

    /// Erases the piece: each of its four cells that lies on the playfield
    /// is emptied, whatever it held; a cell off the playfield is passed over.
    pub fn clear(&mut self, piece: &Piece)
        ensures
            final(self)@ == cleared(old(self)@, *piece),
    {
        let table = offsets_for(piece.kind);
        let mut i: usize = 0;
        assert(self@ =~~= cleared_among(old(self)@, *piece, 0));
        while i < 4
            invariant
                i <= 4,
                offsets_view(table) == shape_offsets(piece.kind),
                self@ == cleared_among(old(self)@, *piece, i as int),
            decreases 4 - i,
        {
            assert(offsets_view(table)[i as int] == shape_offsets(piece.kind)[i as int]);
            let r: i64 = piece.row as i64 + table[i].1 as i64;
            let c: i64 = piece.col as i64 + table[i].0 as i64;
            assert((r as int, c as int) == piece.cell(i as int));
            if Self::is_in_bound(r, c) {
                self.put(r as usize, c as usize, None);
            }
            assert(self@ =~~= cleared_among(old(self)@, *piece, i as int + 1));
            i += 1;
        }
    }

    /// Whether the piece can move one row down: none of its four cells would
    /// leave the playfield or enter a cell that another piece occupies. The
    /// piece's own cells do not stand in its way.
    pub fn can_descend(&self, piece: &Piece) -> (free: bool)
        ensures
            free == piece.can_descend(self@),
    {
        let table = offsets_for(piece.kind);
        let mut i: usize = 0;
        while i < 4
            invariant
                i <= 4,
                offsets_view(table) == shape_offsets(piece.kind),
                0 < i ==> piece.cell_can_descend(self@, 0),
                1 < i ==> piece.cell_can_descend(self@, 1),
                2 < i ==> piece.cell_can_descend(self@, 2),
                3 < i ==> piece.cell_can_descend(self@, 3),
            decreases 4 - i,
        {
            assert(offsets_view(table)[i as int] == shape_offsets(piece.kind)[i as int]);
            let r: i64 = piece.row as i64 + table[i].1 as i64 + 1;
            let c: i64 = piece.col as i64 + table[i].0 as i64;
            assert((r as int - 1, c as int) == piece.cell(i as int));
            if !Self::is_in_bound(r, c) {
                assert(!piece.cell_can_descend(self@, i as int));
                return false;
            }
            if self.kind_at(r, c).is_some() && !piece.occupies(r, c) {
                assert(!piece.cell_can_descend(self@, i as int));
                return false;
            }
            assert(piece.cell_can_descend(self@, i as int));
            i += 1;
        }
        true
    }
}

/// The `i`-th cell of the piece would leave the playfield through its
/// bottom edge.
pub open spec fn cell_meets_floor(piece: Piece, i: int) -> bool {
    piece.cell(i).0 + 1 >= GRID_HEIGHT as int
}

/// The cell below the `i`-th cell of the piece is occupied and is not one of
/// the piece's own cells: a settled piece lies there.
pub open spec fn cell_meets_settled(g: Grid, piece: Piece, i: int) -> bool {
    let below = (piece.cell(i).0 + 1, piece.cell(i).1);
    in_bounds(below.0, below.1) && g[below.0][below.1] is Some && !piece.covers(below.0, below.1)
}

/// The `i`-th cell of the piece cannot move down: it would leave through
/// the bottom edge or enter a cell that a settled piece occupies.
pub open spec fn cell_blocked(g: Grid, piece: Piece, i: int) -> bool {
    cell_meets_floor(piece, i) || cell_meets_settled(g, piece, i)
}

/// A piece of which no cell lies beside the playfield or more than one row
/// above it can descend exactly when none of its four cells would leave
/// through the bottom edge or enter a cell that a settled piece occupies.
pub proof fn lemma_descent_blocked_exactly(g: Grid, piece: Piece)
    requires
        grid_wf(g),
        forall|i: int|
            0 <= i < 4 ==> 0 <= (#[trigger] piece.cell(i)).1 < GRID_WIDTH as int && piece.cell(
                i,
            ).0 >= -1,
    ensures
        piece.can_descend(g) <==> (forall|i: int|
            0 <= i < 4 ==> !#[trigger] cell_blocked(g, piece, i)),
{
    assert(0 <= piece.cell(0).1 < GRID_WIDTH as int && piece.cell(0).0 >= -1);
    assert(0 <= piece.cell(1).1 < GRID_WIDTH as int && piece.cell(1).0 >= -1);
    assert(0 <= piece.cell(2).1 < GRID_WIDTH as int && piece.cell(2).0 >= -1);
    assert(0 <= piece.cell(3).1 < GRID_WIDTH as int && piece.cell(3).0 >= -1);
    assert(piece.cell_can_descend(g, 0) <==> !cell_blocked(g, piece, 0));
    assert(piece.cell_can_descend(g, 1) <==> !cell_blocked(g, piece, 1));
    assert(piece.cell_can_descend(g, 2) <==> !cell_blocked(g, piece, 2));
    assert(piece.cell_can_descend(g, 3) <==> !cell_blocked(g, piece, 3));
}

/// Erasing a piece and painting it again at the same place gives the grid
/// that painting alone gives.
pub proof fn lemma_redraw_is_idempotent(g: Grid, piece: Piece)
    requires
        grid_wf(g),
    ensures
        stamped(cleared(g, piece), piece) == stamped(g, piece),
        stamped(stamped(g, piece), piece) == stamped(g, piece),
{
    assert(stamped(cleared(g, piece), piece) =~~= stamped(g, piece));
    assert(stamped(stamped(g, piece), piece) =~~= stamped(g, piece));
}

/// The piece is painted on the grid: each of its cells that lies on the
/// playfield holds the piece's kind.
pub open spec fn painted(g: Grid, piece: Piece) -> bool {
    forall|r: int, c: int|
        in_bounds(r, c) && #[trigger] piece.covers(r, c) ==> g[r][c] == Some(piece.kind)
}

/// On a grid on which the piece is painted, erasing it and painting it again
/// at the same place restores the grid cell for cell.
pub proof fn lemma_clear_then_stamp_restores(g: Grid, piece: Piece)
    requires
        grid_wf(g),
        painted(g, piece),
    ensures
        stamped(cleared(g, piece), piece) == g,
{
    let redrawn = stamped(cleared(g, piece), piece);
    assert forall|r: int, c: int| in_bounds(r, c) implies redrawn[r][c] == g[r][c] by {
        if piece.covers(r, c) {
            assert(g[r][c] == Some(piece.kind));
        }
    }
    assert forall|r: int| 0 <= r < GRID_HEIGHT as int implies redrawn[r] =~= g[r] by {
        assert forall|c: int| 0 <= c < GRID_WIDTH as int implies redrawn[r][c] == g[r][c] by {
            assert(in_bounds(r, c));
        }
    }
    assert(redrawn =~= g);
}

/// Painting leaves every cell outside the footprint as it was and sets every
/// cell of the footprint on the playfield to the piece's kind; erasing
/// leaves the same cells outside as they were and empties those inside.
pub proof fn lemma_stamp_and_clear_cellwise(g: Grid, piece: Piece, row: int, col: int)
    requires
        grid_wf(g),
        in_bounds(row, col),
    ensures
        grid_wf(stamped(g, piece)),
        grid_wf(cleared(g, piece)),
        stamped(g, piece)[row][col] == (if piece.covers(row, col) {
            Some(piece.kind)
        } else {
            g[row][col]
        }),
        cleared(g, piece)[row][col] == (if piece.covers(row, col) {
            None
        } else {
            g[row][col]
        }),
{
}

} // verus!
