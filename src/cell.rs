use vstd::prelude::*;

verus! {

/// The state of one grid cell.
#[derive(Clone, Copy, Debug, PartialEq, Eq, Structural)]
pub enum Cell {
    Dead,
    Alive,
}

/// How much a cell adds to a live-neighbor count.
pub open spec fn alive_value(c: Cell) -> nat {
    if c == Cell::Alive { 1 } else { 0 }
}

impl Cell {
    /// One for an `Alive` cell, zero for a `Dead` one.
    pub fn as_count(self) -> (r: u8)
        ensures
            r as nat == alive_value(self),
    {
        match self {
            Cell::Dead => 0,
            Cell::Alive => 1,
        }
    }
}

} // verus!
