//! The occupancy grid and the positions that index into it.

use vstd::prelude::*;

use crate::H;
use crate::W;

verus! {

/// Occupancy state of a single grid cell.
#[derive(Debug, Clone, Copy, PartialEq, Eq, Structural)]
pub enum Form {
    Present,
    Void,
}

impl Form {
    /// True exactly when this cell state is `Present`.
    pub fn present(&self) -> (r: bool)
        ensures
            r == (*self == Form::Present),
    {
        match self {
            Form::Present => true,
            Form::Void => false,
        }
    }
}

/// A `(row, col)` coordinate pair identifying one grid cell.
#[derive(Debug, Clone, Copy, PartialEq, Eq, Structural)]
pub struct Position(pub usize, pub usize);

/// A position that actually lies on the `H` x `W` grid.
pub open spec fn pos_wf(p: Position) -> bool {
    p.0 < H && p.1 < W
}

/// Index of position `p` in the row-major sequence of cells.
pub open spec fn cell_index(p: Position) -> int {
    p.0 * W + p.1
}

/// State of the cell at position `p` in the cell sequence `g`.
pub open spec fn cell_at(g: Seq<Form>, p: Position) -> Form {
    g[cell_index(p)]
}

/// The cell sequence `g` with the cell at `p` flipped to `Present` and
/// every other cell unchanged.
pub open spec fn mark_at(g: Seq<Form>, p: Position) -> Seq<Form> {
    g.update(cell_index(p), Form::Present)
}

/// Marking one cell changes that cell alone: in `mark_at(g, p)` the cell at
/// `p` is `Present`, and every other on-grid cell keeps the state it had in
/// `g`.
pub proof fn lemma_mark_at_cells(g: Seq<Form>, p: Position, q: Position)
    requires
        g.len() == H * W,
        pos_wf(p),
        pos_wf(q),
    ensures
        cell_at(mark_at(g, p), q) == (if q == p {
            Form::Present
        } else {
            cell_at(g, q)
        }),
{
    assert(0 <= cell_index(p) < g.len());
    assert(0 <= cell_index(q) < g.len());
    if q != p {
        assert(cell_index(q) != cell_index(p));
    }
}

/// Fixed `H` x `W` occupancy map, stored as one row-major cell sequence.
#[derive(Debug)]
pub struct Grid(Vec<Form>);

impl View for Grid {
    type V = Seq<Form>;

    closed spec fn view(&self) -> Seq<Form> {
        self.0@
    }
}

impl Grid {
    /// The backing store holds exactly one cell per grid coordinate.
    pub open spec fn wf(&self) -> bool {
        self@.len() == H * W
    }

    /// Occupancy of cell `pos`, read without mutation. The grid itself
    /// assumes valid coordinates; callers establish them with bounds checks.
    pub fn pos(&self, pos: Position) -> (r: Form)
        requires
            self.wf(),
            pos_wf(pos),
        ensures
            r == cell_at(self@, pos),
    {
        self.0[pos.0 * W + pos.1]
    }

    /// Permanently flips cell `pos` to `Present`; cells never revert to
    /// `Void`. Must only be called with an in-bounds position.
    pub fn set(&mut self, pos: Position)
        requires
            old(self).wf(),
            pos_wf(pos),
        ensures
            final(self)@ == mark_at(old(self)@, pos),
            final(self).wf(),
    {
        let i: usize = pos.0 * W + pos.1;
        self.0[i] = Form::Present;
    }
}

impl Default for Grid {
    /// A grid of the fixed dimensions with every cell `Void`.
    fn default() -> (r: Self)
        ensures
            r.wf(),
            forall|i: int| 0 <= i < r@.len() ==> r@[i] == Form::Void,
    {
        let mut cells: Vec<Form> = Vec::new();
        let mut i: usize = 0;
        while i < H * W
            invariant
                i <= H * W,
                cells@.len() == i,
                forall|j: int| 0 <= j < i ==> cells@[j] == Form::Void,
            decreases H * W - i,
        {
            cells.push(Form::Void);
            i = i + 1;
        }
        Grid(cells)
    }
}

} // verus!
