//! The five-piece catalog and random selection among its entries.

use vstd::prelude::*;

use rand::Rng;

use crate::engine::Direction;
use crate::engine::Error;
use crate::engine::Flow;
use crate::engine::Render;
use crate::grid::Grid;
use crate::grid::Position;

verus! {

/// One of the five tetromino-like shapes. Each variant stands for a fixed
/// movement chain applied relative to an externally chosen start cell, which
/// the caller marks `Present` before rendering begins.
#[derive(Debug, Clone, Copy, PartialEq, Eq, Structural)]
pub enum Piece {
    Square,
    Line,
    LeftTwist,
    RightTwist,
    Pile,
}

/// The catalog entry in slot `i`; draws beyond the catalog's last slot fall
/// back to `Pile`, so every index maps to some piece.
pub open spec fn piece_of_index(i: int) -> Piece {
    if i == 0 {
        Piece::Square
    } else if i == 1 {
        Piece::Line
    } else if i == 2 {
        Piece::LeftTwist
    } else if i == 3 {
        Piece::RightTwist
    } else {
        Piece::Pile
    }
}

/// Relies on `rand::thread_rng` and `rand::Rng::gen_range`: a draw from the
/// non-empty range `0..5` returns a value of that range and does not panic.
#[verifier::external_body]
fn draw_index() -> (r: u8)
    ensures
        r < 5,
{
    rand::thread_rng().gen_range(0..5)
}

impl Piece {
    /// The piece of catalog slot `i`.
    pub fn from_index(i: u8) -> (r: Piece)
        ensures
            r == piece_of_index(i as int),
    {
        match i {
            0 => Piece::Square,
            1 => Piece::Line,
            2 => Piece::LeftTwist,
            3 => Piece::RightTwist,
            _ => Piece::Pile,
        }
    }

    /// A piece drawn from the catalog by an external random source; every
    /// variant is a possible outcome, so callers may assume nothing about
    /// which one comes back.
    pub fn random() -> Piece {
        Piece::from_index(draw_index())
    }

    /// This piece's movement chain as a runtime sequence of directions.
    pub fn moves(&self) -> (r: Vec<Direction>)
        ensures
            r@ == self.chain(),
    {
        let r = match self {
            Piece::Square => vec![Direction::Up, Direction::Right, Direction::Down],
            Piece::Line => vec![Direction::Down, Direction::Down, Direction::Down],
            Piece::LeftTwist => vec![Direction::Down, Direction::Right, Direction::Down],
            Piece::RightTwist => vec![Direction::Down, Direction::Left, Direction::Down],
            Piece::Pile => vec![Direction::Down, Direction::Left, Direction::JumpRight],
        };
        proof {
            assert(r@ =~= self.chain());
        }
        r
    }
}

impl Render for Piece {
    /// The fixed chain of this catalog entry.
    open spec fn chain(&self) -> Seq<Direction> {
        match self {
            Piece::Square => seq![Direction::Up, Direction::Right, Direction::Down],
            Piece::Line => seq![Direction::Down, Direction::Down, Direction::Down],
            Piece::LeftTwist => seq![Direction::Down, Direction::Right, Direction::Down],
            Piece::RightTwist => seq![Direction::Down, Direction::Left, Direction::Down],
            Piece::Pile => seq![Direction::Down, Direction::Left, Direction::JumpRight],
        }
    }

    fn render(self, grid: Grid, pos: Position) -> (r: Result<(Grid, Position), Error>) {
        Flow(self.moves()).render(grid, pos)
    }
}

} // verus!
