//! The engine: the playfield, the bag with its cursor, and the one piece
//! that is falling, advanced one step at a time.

use vstd::prelude::*;
use crate::bag::{is_full_bag, Bag, BAG_SIZE};
use crate::board::{
    cleared, empty_grid, grid_at, grid_wf, in_bounds, painted, stamped, Board, Grid, Piece,
};
use crate::shape::{lemma_shape_is_tetromino, PieceKind};

verus! {

/// Row of the anchor of a piece that enters the playfield.
pub const SPAWN_ROW: i32 = 0;

/// Column of the anchor of a piece that enters the playfield.
pub const SPAWN_COL: i32 = 4;

/// The mathematical state of the engine.
pub struct EngineState {
    /// The playfield, the falling piece painted on it.
    pub grid: Grid,
    /// The bag in use.
    pub bag: Seq<PieceKind>,
    /// Position in the bag of the piece that entered last.
    pub cursor: int,
    /// The falling piece.
    pub active: Piece,
}

/// A piece of the given kind at the point where pieces enter.
pub open spec fn spawned(kind: PieceKind) -> Piece {
    Piece { kind, row: SPAWN_ROW, col: SPAWN_COL }
}

/// What holds of the engine between any two steps: the grid has the
/// playfield's dimensions; the bag holds every kind once; the cursor leaves
/// room for the piece that is shown as next; and the falling piece lies
/// on the playfield with each of its four cells holding its kind.
pub open spec fn state_wf(s: EngineState) -> bool {
    &&& grid_wf(s.grid)
    &&& is_full_bag(s.bag)
    &&& 0 <= s.cursor <= BAG_SIZE as int - 2
    &&& s.active.fits()
    &&& painted(s.grid, s.active)
}

/// The state in which play starts on a given grid with a given bag: the
/// bag's first piece is painted at the point where pieces enter.
pub open spec fn started(g: Grid, bag: Seq<PieceKind>) -> EngineState {
    EngineState { grid: stamped(g, spawned(bag[0])), bag, cursor: 0, active: spawned(bag[0]) }
}

/// The state in which play starts on an empty playfield.
pub open spec fn initial(bag: Seq<PieceKind>) -> EngineState {
    started(empty_grid(), bag)
}

/// The cursor is within one slot of the bag's end: the bag is replaced
/// before the next step.
pub open spec fn bag_low(s: EngineState) -> bool {
    s.cursor + 2 >= BAG_SIZE as int
}

/// The state with a fresh bag in place of the old one, the cursor at its
/// start. The falling piece and the grid stay as they are.
pub open spec fn refilled(s: EngineState, fresh: Seq<PieceKind>) -> EngineState {
    EngineState { bag: fresh, cursor: 0, ..s }
}

/// The falling piece settles where it lies, and the bag's next piece enters:
/// the cursor moves on by one, and the new piece is painted at the point
/// where pieces enter, over whatever lies there.
pub open spec fn locked_and_spawned(s: EngineState) -> EngineState {
    let next = spawned(s.bag[s.cursor + 1]);
    EngineState { grid: stamped(s.grid, next), cursor: s.cursor + 1, active: next, ..s }
}

/// The falling piece moves one row down: its cells are emptied and painted
/// again one row lower.
pub open spec fn dropped(s: EngineState) -> EngineState {
    let lower = s.active.lowered();
    EngineState { grid: stamped(cleared(s.grid, s.active), lower), active: lower, ..s }
}

/// The falling piece settles and the next one enters, where the falling
/// piece cannot descend; nothing changes where it can.
pub open spec fn current_updated(s: EngineState) -> EngineState {
    if s.active.can_descend(s.grid) {
        s
    } else {
        locked_and_spawned(s)
    }
}

/// The falling piece moves one row down where it can; nothing changes where
/// it cannot.
pub open spec fn soft_dropped(s: EngineState) -> EngineState {
    if s.active.can_descend(s.grid) {
        dropped(s)
    } else {
        s
    }
}

/// One step without a change of bag: first the falling piece settles and
/// the next one enters, if the falling piece is blocked; then the piece
/// that is falling now, which may have entered this very step, moves one
/// row down if it can.
pub open spec fn advanced(s: EngineState) -> EngineState {
    soft_dropped(current_updated(s))
}

/// One step: the bag is replaced by `fresh` where the cursor is within one
/// slot of its end, and then the pieces move.
pub open spec fn ticked(s: EngineState, fresh: Seq<PieceKind>) -> EngineState {
    advanced(
        if bag_low(s) {
            refilled(s, fresh)
        } else {
            s
        },
    )
}

/// The pile has reached the top: the falling piece lies where it entered
/// and cannot fall. The engine knows no end of play: on the next step this
/// piece settles where it lies and the next one is painted over it. A
/// driver that wants to end play asks for this condition after each step.
pub open spec fn topped_out(s: EngineState) -> bool {
    s.active == spawned(s.active.kind) && !s.active.can_descend(s.grid)
}

/// A piece that enters lies on the playfield.
pub proof fn lemma_spawned_fits(kind: PieceKind)
    ensures
        spawned(kind).fits(),
{
    lemma_shape_is_tetromino(kind);
}

/// Play starts in a state that satisfies the engine's invariant.
pub proof fn lemma_started_wf(g: Grid, bag: Seq<PieceKind>)
    requires
        grid_wf(g),
        is_full_bag(bag),
    ensures
        state_wf(started(g, bag)),
{
    lemma_spawned_fits(bag[0]);
}

/// A step without a change of bag keeps the engine's invariant.
pub proof fn lemma_advanced_wf(s: EngineState)
    requires
        state_wf(s),
        !bag_low(s),
    ensures
        state_wf(current_updated(s)),
        state_wf(advanced(s)),
{
    let s1 = current_updated(s);
    if !s.active.can_descend(s.grid) {
        lemma_spawned_fits(s.bag[s.cursor + 1]);
    }
    assert(state_wf(s1));
    if s1.active.can_descend(s1.grid) {
        let p = s1.active;
        assert(p.cell_can_descend(s1.grid, 0));
        assert(p.cell_can_descend(s1.grid, 1));
        assert(p.cell_can_descend(s1.grid, 2));
        assert(p.cell_can_descend(s1.grid, 3));
        assert(p.lowered().fits());
    }
}

/// Every step keeps the engine's invariant, whatever full bag it is handed.
pub proof fn lemma_ticked_wf(s: EngineState, fresh: Seq<PieceKind>)
    requires
        state_wf(s),
        is_full_bag(fresh),
    ensures
        state_wf(ticked(s, fresh)),
{
    if bag_low(s) {
        lemma_advanced_wf(refilled(s, fresh));
    } else {
        lemma_advanced_wf(s);
    }
}

/// In every state that satisfies the invariant the falling piece accounts
/// for exactly four cells: its four cells lie on the playfield, no two of
/// them are the same cell, and each holds the kind of the falling piece.
pub proof fn lemma_active_piece_has_four_cells(s: EngineState)
    requires
        state_wf(s),
    ensures
        forall|i: int|
            0 <= i < 4 ==> in_bounds(
                (#[trigger] s.active.cell(i)).0,
                s.active.cell(i).1,
            ) && s.grid[s.active.cell(i).0][s.active.cell(i).1] == Some(s.active.kind),
        forall|i: int, j: int| 0 <= i < j < 4 ==> s.active.cell(i) != s.active.cell(j),
        Set::new(|rc: (int, int)| s.active.covers(rc.0, rc.1)).len() == 4,
{
    let p = s.active;
    lemma_shape_is_tetromino(p.kind);
    assert forall|i: int| 0 <= i < 4 implies in_bounds((#[trigger] p.cell(i)).0, p.cell(i).1)
        && s.grid[p.cell(i).0][p.cell(i).1] == Some(p.kind) by {
        assert(p.covers(p.cell(i).0, p.cell(i).1));
    }
    let offs = crate::shape::shape_offsets(p.kind);
    assert forall|i: int, j: int| 0 <= i < j < 4 implies p.cell(i) != p.cell(j) by {
        assert(offs[i] != offs[j]);
    }
    let cells = Set::new(|rc: (int, int)| p.covers(rc.0, rc.1));
    let listed = set![p.cell(0), p.cell(1), p.cell(2), p.cell(3)];
    assert(cells =~= listed);
    assert(p.cell(0) != p.cell(1) && p.cell(0) != p.cell(2) && p.cell(0) != p.cell(3));
    assert(p.cell(1) != p.cell(2) && p.cell(1) != p.cell(3) && p.cell(2) != p.cell(3));
    assert(listed.len() == 4) by {
        let e = Set::<(int, int)>::empty();
        let s0 = e.insert(p.cell(0));
        let s1 = s0.insert(p.cell(1));
        let s2 = s1.insert(p.cell(2));
        let s3 = s2.insert(p.cell(3));
        assert(s0.len() == 1);
        assert(s1.len() == 2);
        assert(s2.len() == 3);
        assert(s3.len() == 4);
        assert(listed =~= s3);
    }
}

/// The engine.
#[derive(Clone, Copy, Debug, PartialEq, Eq)]
pub struct Tetris {
    grid: Board,
    bag: Bag,
    bag_ind: usize,
    current: Piece,
}

impl View for Tetris {
    type V = EngineState;

    closed spec fn view(&self) -> EngineState {
        EngineState {
            grid: self.grid@,
            bag: self.bag@,
            cursor: self.bag_ind as int,
            active: self.current,
        }
    }
}

impl Tetris {
    /// The engine's invariant holds of this value, as it does of every engine.
    #[verifier::type_invariant]
    pub open spec fn wf(&self) -> bool {
        state_wf(self@)
    }

    /// An engine at the start of play on an empty playfield, with a freshly
    /// shuffled bag.
    pub fn new() -> (tetris: Tetris)
        ensures
            tetris.wf(),
            tetris@ == initial(tetris@.bag),
    {
        Self::with_bag(Bag::generate())
    }

    /// An engine at the start of play on an empty playfield, with the given
    /// bag.
    pub fn with_bag(bag: Bag) -> (tetris: Tetris)
        ensures
            tetris.wf(),
            tetris@ == initial(bag@),
    {
        Self::with_board(Board::new(), bag)
    }

    /// An engine at the start of play on the given playfield, with the
    /// given bag: the bag's first piece is painted at the point where pieces
    /// enter, over whatever the playfield holds there.
    pub fn with_board(board: Board, bag: Bag) -> (tetris: Tetris)
        ensures
            tetris.wf(),
            tetris@ == started(board@, bag@),
    {
        let current = Piece::new(bag.kind(0), SPAWN_ROW, SPAWN_COL);
        let mut grid = board;
        grid.stamp(&current);
        proof {
            use_type_invariant(&bag);
            board.lemma_dimensions();
            lemma_started_wf(board@, bag@);
        }
        Tetris { grid, bag, bag_ind: 0, current }
    }

    /// Whether the cursor is within one slot of the bag's end, so that the
    /// next step replaces the bag.
    pub fn bag_is_low(&self) -> (low: bool)
        ensures
            low == bag_low(self@),
    {
        proof {
            use_type_invariant(self);
        }
        self.bag_ind + 2 >= BAG_SIZE
    }

    /// Puts a fresh bag in place of the old one, with the cursor at its
    /// start.
    pub fn refill(&mut self, fresh: Bag)
        ensures
            final(self).wf(),
            final(self)@ == refilled(old(self)@, fresh@),
    {
        proof {
            use_type_invariant(&*self);
            use_type_invariant(&fresh);
        }
        *self = Tetris { grid: self.grid, bag: fresh, bag_ind: 0, current: self.current };
    }

    /// Whether the falling piece can move one row down.
    pub fn can_move_down(&self) -> (free: bool)
        ensures
            free == self@.active.can_descend(self@.grid),
    {
        self.grid.can_descend(&self.current)
    }

    /// Whether the pile has reached the top: the falling piece lies where
    /// it entered and cannot fall.
    pub fn is_topped_out(&self) -> (over: bool)
        ensures
            over == topped_out(self@),
    {
        self.current.row == SPAWN_ROW && self.current.col == SPAWN_COL && !self.grid.can_descend(
            &self.current,
        )
    }

    /// Where the falling piece cannot descend, it settles where it lies and
    /// the bag's next piece enters at the top.
    fn update_current(&mut self)
        requires
            !bag_low(old(self)@),
        ensures
            final(self).wf(),
            final(self)@ == current_updated(old(self)@),
    {
        proof {
            use_type_invariant(&*self);
            lemma_advanced_wf(self@);
        }
        if !self.grid.can_descend(&self.current) {
            let bag_ind: usize = self.bag_ind + 1;
            let next = Piece::new(self.bag.kind(bag_ind), SPAWN_ROW, SPAWN_COL);
            let mut grid = self.grid;
            grid.stamp(&next);
            *self = Tetris { grid, bag: self.bag, bag_ind, current: next };
        }
    }

    /// Where the falling piece can descend, it moves one row down.
    fn soft_drop(&mut self)
        requires
            state_wf(soft_dropped(old(self)@)),
        ensures
            final(self).wf(),
            final(self)@ == soft_dropped(old(self)@),
    {
        proof {
            use_type_invariant(&*self);
        }
        if self.grid.can_descend(&self.current) {
            let piece = self.current;
            proof {
                lemma_shape_is_tetromino(piece.kind);
                assert(piece.cell_can_descend(self@.grid, 0));
            }
            let lower = Piece::new(piece.kind, piece.row + 1, piece.col);
            let mut grid = self.grid;
            grid.clear(&piece);
            grid.stamp(&lower);
            *self = Tetris { grid, bag: self.bag, bag_ind: self.bag_ind, current: lower };
        }
    }

    /// One step without a change of bag: a blocked piece settles and the
    /// next one enters; then the piece that is falling moves one row down if
    /// it can, also in the step in which it entered.
    fn advance(&mut self)
        requires
            !bag_low(old(self)@),
        ensures
            final(self).wf(),
            final(self)@ == advanced(old(self)@),
    {
        proof {
            use_type_invariant(&*self);
            lemma_advanced_wf(self@);
        }
        self.update_current();
        self.soft_drop();
    }

    /// One step, with the bag to use should the old one run low: where the
    /// cursor is within one slot of the bag's end, `fresh` replaces the bag
    /// before anything moves; otherwise `fresh` is not looked at.
    pub fn tick(&mut self, fresh: Bag)
        ensures
            final(self).wf(),
            final(self)@ == ticked(old(self)@, fresh@),
    {
        if self.bag_is_low() {
            self.refill(fresh);
        }
        self.advance();
    }

    /// What the playfield holds at (row, col): a kind, or nothing where the
    /// cell is empty or off the playfield.
    pub fn cell_at(&self, row: i64, col: i64) -> (kind: Option<PieceKind>)
        ensures
            kind == grid_at(self@.grid, row as int, col as int),
    {
        self.grid.kind_at(row, col)
    }

    /// The kind of the piece that enters next. Nothing changes.
    pub fn next_kind(&self) -> (kind: PieceKind)
        ensures
            kind == self@.bag[self@.cursor + 1],
    {
        proof {
            use_type_invariant(self);
        }
        self.bag.kind(self.bag_ind + 1)
    }

    /// The falling piece.
    pub fn current(&self) -> (piece: Piece)
        ensures
            piece == self@.active,
    {
        self.current
    }

    /// Position in the bag of the piece that entered last.
    pub fn bag_cursor(&self) -> (cursor: usize)
        ensures
            cursor == self@.cursor,
    {
        self.bag_ind
    }

    /// The bag in use.
    pub fn bag(&self) -> (bag: Bag)
        ensures
            bag@ == self@.bag,
    {
        self.bag
    }

    /// The playfield.
    pub fn board(&self) -> (board: Board)
        ensures
            board@ == self@.grid,
    {
        self.grid
    }
}

/// Starts play anew: an empty playfield, a freshly shuffled bag, and the
/// bag's first piece at the point where pieces enter.
pub fn init(tetris: &mut Tetris)
    ensures
        final(tetris).wf(),
        final(tetris)@ == initial(final(tetris)@.bag),
{
    *tetris = Tetris::new();
}

/// One step of play. Where the cursor is within one slot of the bag's end,
/// a freshly shuffled bag replaces the bag first; then the pieces move.
pub fn update(tetris: &mut Tetris)
    ensures
        final(tetris).wf(),
        !bag_low(old(tetris)@) ==> final(tetris)@ == advanced(old(tetris)@),
        exists|fresh: Seq<PieceKind>|
            is_full_bag(fresh) && final(tetris)@ == ticked(old(tetris)@, fresh),
{
    if tetris.bag_is_low() {
        let fresh = Bag::generate();
        tetris.tick(fresh);
        assert(tetris@ == ticked(old(tetris)@, fresh@));
    } else {
        proof {
            use_type_invariant(&*tetris);
        }
        tetris.advance();
        assert(tetris@ == ticked(old(tetris)@, old(tetris)@.bag));
    }
}

} // verus!
