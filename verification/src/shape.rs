//! The seven piece kinds and the cells each of them covers.

use vstd::prelude::*;

verus! {

/// One of the seven tetromino kinds.
#[derive(Clone, Copy, PartialEq, Eq, Debug, Structural)]
pub enum PieceKind {
    O,
    I,
    T,
    L,
    J,
    S,
    Z,
}

/// Number of cells in every shape.
pub const SHAPE_CELLS: usize = 4;

/// The cells of a kind, each as (column offset, row offset) from the anchor.
///
/// Rows grow downwards. The first cell is where the shape starts; every
/// later cell shares an edge with one listed before it.
pub open spec fn shape_offsets(kind: PieceKind) -> Seq<(int, int)> {
    match kind {
        PieceKind::O => seq![(0, 0), (0, 1), (1, 0), (1, 1)],
        PieceKind::I => seq![(-1, 0), (0, 0), (1, 0), (2, 0)],
        PieceKind::T => seq![(0, 0), (0, 1), (-1, 1), (1, 1)],
        PieceKind::L => seq![(0, 0), (0, 1), (1, 1), (2, 1)],
        PieceKind::J => seq![(0, 1), (1, 1), (2, 1), (2, 0)],
        PieceKind::S => seq![(0, 0), (0, 1), (-1, 1), (1, 0)],
        PieceKind::Z => seq![(0, 0), (0, 1), (-1, 0), (1, 1)],
    }
}

/// The offsets of an executable table, as mathematical pairs.
pub open spec fn offsets_view(table: [(i32, i32); 4]) -> Seq<(int, int)> {
    Seq::new(4, |i: int| (table[i].0 as int, table[i].1 as int))
}

/// Two relative cells share an edge.
pub open spec fn touches(a: (int, int), b: (int, int)) -> bool {
    ||| (a.0 == b.0 && (a.1 == b.1 + 1 || b.1 == a.1 + 1))
    ||| (a.1 == b.1 && (a.0 == b.0 + 1 || b.0 == a.0 + 1))
}

/// The shape table: the four relative cells of `kind`.
pub fn offsets_for(kind: PieceKind) -> (table: [(i32, i32); 4])
    ensures
        offsets_view(table) == shape_offsets(kind),
{
    let table: [(i32, i32); 4] = match kind {
        PieceKind::O => [(0, 0), (0, 1), (1, 0), (1, 1)],
        PieceKind::I => [(-1, 0), (0, 0), (1, 0), (2, 0)],
        PieceKind::T => [(0, 0), (0, 1), (-1, 1), (1, 1)],
        PieceKind::L => [(0, 0), (0, 1), (1, 1), (2, 1)],
        PieceKind::J => [(0, 1), (1, 1), (2, 1), (2, 0)],
        PieceKind::S => [(0, 0), (0, 1), (-1, 1), (1, 0)],
        PieceKind::Z => [(0, 0), (0, 1), (-1, 0), (1, 1)],
    };
    assert(offsets_view(table) =~= shape_offsets(kind));
    table
}

/// Every shape has exactly four cells, no two of them the same, all within
/// a box of four columns and two rows around the anchor, and each cell after
/// the first shares an edge with an earlier one, so the four cells hang
/// together as one tetromino.
pub proof fn lemma_shape_is_tetromino(kind: PieceKind)
    ensures
        shape_offsets(kind).len() == 4,
        forall|i: int, j: int|
            0 <= i < j < 4 ==> shape_offsets(kind)[i] != shape_offsets(kind)[j],
        forall|i: int|
            0 <= i < 4 ==> -1 <= (#[trigger] shape_offsets(kind)[i]).0 <= 2 && 0
                <= shape_offsets(kind)[i].1 <= 1,
        forall|i: int|
            1 <= i < 4 ==> exists|j: int|
                0 <= j < i && touches(#[trigger] shape_offsets(kind)[i], shape_offsets(kind)[j]),
{
    let s = shape_offsets(kind);
    assert(touches(s[1], s[0]));
    assert(touches(s[2], s[0]) || touches(s[2], s[1]));
    assert(touches(s[3], s[0]) || touches(s[3], s[1]) || touches(s[3], s[2]));
}

} // verus!
