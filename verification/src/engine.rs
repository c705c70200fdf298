//! Directions, the single-step engine, and the movement-chain interpreter.

use vstd::prelude::*;

use crate::grid::cell_at;
use crate::grid::mark_at;
use crate::grid::pos_wf;
use crate::grid::Form;
use crate::grid::Grid;
use crate::grid::Position;
use crate::H;
use crate::W;

verus! {

/// One of the five unit movements. `JumpRight` is a two-cell horizontal jump;
/// the others move the cursor one cell.
#[derive(Debug, Clone, Copy, PartialEq, Eq, Structural)]
pub enum Direction {
    Up,
    Down,
    Left,
    Right,
    JumpRight,
}

/// The single failure kind: a step would leave the grid bounds or land on an
/// already-occupied cell.
#[derive(Debug, Clone, Copy, PartialEq, Eq, Structural)]
pub enum Error {
    Collision,
}

/// Direction `d`'s boundary-violation predicate at position `p`.
pub open spec fn out_of_bounds(d: Direction, p: Position) -> bool {
    match d {
        Direction::Up => p.0 == 0,
        Direction::Down => p.0 == H - 1,
        Direction::Left => p.1 == 0,
        Direction::Right => p.1 == W - 1,
        Direction::JumpRight => p.1 >= W - 2,
    }
}

/// The position one `d`-movement away from `p`; meaningful only where `d`
/// does not violate its bounds at `p`.
pub open spec fn moved(d: Direction, p: Position) -> Position {
    match d {
        Direction::Up => Position((p.0 - 1) as usize, p.1),
        Direction::Down => Position((p.0 + 1) as usize, p.1),
        Direction::Left => Position(p.0, (p.1 - 1) as usize),
        Direction::Right => Position(p.0, (p.1 + 1) as usize),
        Direction::JumpRight => Position(p.0, (p.1 + 2) as usize),
    }
}

/// A `d`-step from `p` on cells `g` collides: it would leave the bounds, or
/// its destination cell is already occupied.
pub open spec fn blocked(d: Direction, g: Seq<Form>, p: Position) -> bool {
    out_of_bounds(d, p) || cell_at(g, moved(d, p)) == Form::Present
}

/// Outcome of running a whole chain from `(g, p)`: the cells after every
/// committed step, the position after the last committed step, and whether
/// every step succeeded. A blocked step commits nothing and ends the run.
pub open spec fn chain_run(ds: Seq<Direction>, g: Seq<Form>, p: Position) -> (Seq<Form>, Position, bool)
    decreases ds.len(),
{
    if ds.len() == 0 {
        (g, p, true)
    } else if blocked(ds[0], g, p) {
        (g, p, false)
    } else {
        chain_run(ds.drop_first(), mark_at(g, moved(ds[0], p)), moved(ds[0], p))
    }
}

/// Validates and applies one movement: the bounds predicate is evaluated
/// against the current position first, then the destination's occupancy; on
/// success the destination cell is marked and becomes the new cursor, and on
/// collision no cell has been marked.
pub fn step(d: Direction, grid: Grid, pos: Position) -> (r: Result<(Grid, Position), Error>)
    requires
        grid.wf(),
        pos_wf(pos),
    ensures
        r is Ok <==> !blocked(d, grid@, pos),
        r is Err ==> r == Err::<(Grid, Position), Error>(Error::Collision),
        (r matches Ok((g2, p2)) ==> g2@ == mark_at(grid@, moved(d, pos)) && p2 == moved(d, pos)
            && g2.wf() && pos_wf(p2)),
{
    let hit = match d {
        Direction::Up => pos.0 == 0,
        Direction::Down => pos.0 == H - 1,
        Direction::Left => pos.1 == 0,
        Direction::Right => pos.1 == W - 1,
        Direction::JumpRight => pos.1 >= W - 2,
    };
    if hit {
        return Err(Error::Collision);
    }
    let next = match d {
        Direction::Up => Position(pos.0 - 1, pos.1),
        Direction::Down => Position(pos.0 + 1, pos.1),
        Direction::Left => Position(pos.0, pos.1 - 1),
        Direction::Right => Position(pos.0, pos.1 + 1),
        Direction::JumpRight => Position(pos.0, pos.1 + 2),
    };
    if grid.pos(next).present() {
        return Err(Error::Collision);
    }
    let mut grid = grid;
    grid.set(next);
    Ok((grid, next))
}

/// Rendering an empty chain is a no-op: the run hands back its input cells
/// and cursor unchanged, and succeeds.
pub proof fn lemma_chain_run_empty(g: Seq<Form>, p: Position)
    ensures
        chain_run(Seq::<Direction>::empty(), g, p) == (g, p, true),
{
}

/// A blocked opening step commits nothing: a chain whose first direction is
/// blocked in the current state fails and leaves cells and cursor untouched.
pub proof fn lemma_blocked_step_commits_nothing(ds: Seq<Direction>, g: Seq<Form>, p: Position)
    requires
        ds.len() > 0,
        blocked(ds[0], g, p),
    ensures
        chain_run(ds, g, p) == (g, p, false),
{
}

/// Chains run in sequence: a concatenated chain first runs its left part; a
/// failure there ends the whole run with the left part's outcome, and only
/// if every left step succeeded does the right part run, from exactly the
/// state the left part produced.
pub proof fn lemma_chain_run_app(a: Seq<Direction>, b: Seq<Direction>, g: Seq<Form>, p: Position)
    ensures
        chain_run(a + b, g, p) == (if chain_run(a, g, p).2 {
            chain_run(b, chain_run(a, g, p).0, chain_run(a, g, p).1)
        } else {
            chain_run(a, g, p)
        }),
    decreases a.len(),
{
    if a.len() == 0 {
        assert(a + b =~= b);
    } else {
        assert((a + b)[0] == a[0]);
        assert((a + b).len() > 0);
        if !blocked(a[0], g, p) {
            assert((a + b).drop_first() =~= a.drop_first() + b);
            lemma_chain_run_app(
                a.drop_first(),
                b,
                mark_at(g, moved(a[0], p)),
                moved(a[0], p),
            );
        }
    }
}

/// A failed run is exactly its longest successful prefix: some index `k`
/// names the failing step; every step before `k` succeeded, step `k` is
/// blocked in the state those steps produced, no later step is attempted,
/// and the run's cells and cursor are those after steps `1..k`.
pub proof fn lemma_chain_run_failure_prefix(ds: Seq<Direction>, g: Seq<Form>, p: Position)
    requires
        !chain_run(ds, g, p).2,
    ensures
        exists|k: int|
            0 <= k < ds.len() && chain_run(#[trigger] ds.take(k), g, p).2 && blocked(
                ds[k],
                chain_run(ds.take(k), g, p).0,
                chain_run(ds.take(k), g, p).1,
            ) && chain_run(ds, g, p).0 == chain_run(ds.take(k), g, p).0 && chain_run(ds, g, p).1
                == chain_run(ds.take(k), g, p).1,
    decreases ds.len(),
{
    if ds.len() > 0 {
        if blocked(ds[0], g, p) {
            assert(ds.take(0) =~= Seq::<Direction>::empty());
            assert(chain_run(ds.take(0), g, p).2);
        } else {
            let g1 = mark_at(g, moved(ds[0], p));
            let p1 = moved(ds[0], p);
            lemma_chain_run_failure_prefix(ds.drop_first(), g1, p1);
            let k = choose|k: int|
                0 <= k < ds.drop_first().len() && chain_run(
                    #[trigger] ds.drop_first().take(k),
                    g1,
                    p1,
                ).2 && blocked(
                    ds.drop_first()[k],
                    chain_run(ds.drop_first().take(k), g1, p1).0,
                    chain_run(ds.drop_first().take(k), g1, p1).1,
                ) && chain_run(ds.drop_first(), g1, p1).0 == chain_run(
                    ds.drop_first().take(k),
                    g1,
                    p1,
                ).0 && chain_run(ds.drop_first(), g1, p1).1 == chain_run(
                    ds.drop_first().take(k),
                    g1,
                    p1,
                ).1;
            assert(ds.take(k + 1)[0] == ds[0]);
            assert(ds.take(k + 1).drop_first() =~= ds.drop_first().take(k));
            assert(ds[k + 1] == ds.drop_first()[k]);
            assert(chain_run(ds.take(k + 1), g, p) == chain_run(ds.drop_first().take(k), g1, p1));
        }
    }
}

/// Occupancy is append-only: a run only ever flips cells from `Void` to
/// `Present`, so a cell that is occupied stays occupied through any chain.
pub proof fn lemma_chain_run_append_only(ds: Seq<Direction>, g: Seq<Form>, p: Position, q: Position)
    requires
        g.len() == H * W,
        pos_wf(p),
        pos_wf(q),
        cell_at(g, q) == Form::Present,
    ensures
        cell_at(chain_run(ds, g, p).0, q) == Form::Present,
    decreases ds.len(),
{
    if ds.len() > 0 && !blocked(ds[0], g, p) {
        let p1 = moved(ds[0], p);
        assert(pos_wf(p1));
        crate::grid::lemma_mark_at_cells(g, p1, q);
        lemma_chain_run_append_only(ds.drop_first(), mark_at(g, p1), p1, q);
    }
}

/// Anything that renders as a movement chain against a grid and a cursor.
pub trait Render: Sized {
    /// The ordered movement chain this value stands for.
    spec fn chain(&self) -> Seq<Direction>;

    /// Folds the chain over `(grid, pos)` left to right, applying one step
    /// per direction and short-circuiting at the first collision.
    fn render(self, grid: Grid, pos: Position) -> (r: Result<(Grid, Position), Error>)
        requires
            grid.wf(),
            pos_wf(pos),
        ensures
            r is Ok <==> chain_run(self.chain(), grid@, pos).2,
            r is Err ==> r == Err::<(Grid, Position), Error>(Error::Collision),
            (r matches Ok((g2, p2)) ==> g2@ == chain_run(self.chain(), grid@, pos).0
                && p2 == chain_run(self.chain(), grid@, pos).1
                && g2.wf() && pos_wf(p2)),
        ;
}

/// A movement chain held as a plain ordered sequence of directions.
#[derive(Debug)]
pub struct Flow(pub Vec<Direction>);

impl Render for Flow {
    open spec fn chain(&self) -> Seq<Direction> {
        self.0@
    }

    fn render(self, grid: Grid, pos: Position) -> (r: Result<(Grid, Position), Error>) {
        let ghost g0 = grid@;
        let ghost p0 = pos;
        let mut g = grid;
        let mut p = pos;
        let mut i: usize = 0;
        proof {
            assert(self.0@.skip(0) =~= self.0@);
        }
        #[verifier::loop_isolation(false)]
        while i < self.0.len()
            invariant
                i <= self.0.len(),
                g.wf(),
                pos_wf(p),
                chain_run(self.0@, g0, p0) == chain_run(self.0@.skip(i as int), g@, p),
            decreases self.0.len() - i,
        {
            let ghost pre_g = g@;
            let ghost pre_p = p;
            proof {
                assert(self.0@.skip(i as int)[0] == self.0@[i as int]);
            }
            match step(self.0[i], g, p) {
                Ok(gp) => {
                    proof {
                        assert(self.0@.skip(i as int).drop_first() =~= self.0@.skip(i + 1));
                    }
                    g = gp.0;
                    p = gp.1;
                }
                Err(e) => {
                    proof {
                        assert(chain_run(self.0@.skip(i as int), pre_g, pre_p) == (pre_g, pre_p, false));
                    }
                    return Err(e);
                }
            }
            i = i + 1;
        }
        proof {
            assert(self.0@.skip(i as int) =~= Seq::<Direction>::empty());
        }
        Ok((g, p))
    }
}

} // verus!
