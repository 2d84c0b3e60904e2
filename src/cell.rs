use vstd::prelude::*;

verus! {

/// The B3/S23 rule: a live cell survives with two or three live neighbours,
/// a dead cell comes alive with exactly three.
pub open spec fn life_rule(alive: bool, live_neighbors: int) -> bool {
    if alive {
        live_neighbors == 2 || live_neighbors == 3
    } else {
        live_neighbors == 3
    }
}

/// One square of the board, alive or dead.
#[derive(Clone, Copy, Debug, PartialEq, Eq)]
pub struct Cell {
    alive: bool,
}

impl View for Cell {
    type V = bool;

    closed spec fn view(&self) -> bool {
        self.alive
    }
}

impl Cell {
    /// A cell in the given state.
    pub fn new(alive: bool) -> (r: Cell)
        ensures
            r@ == alive,
    {
        Cell { alive }
    }

    pub fn is_alive(&self) -> (r: bool)
        ensures
            r == self@,
    {
        self.alive
    }

    pub fn set_alive(&mut self, alive: bool)
        ensures
            final(self)@ == alive,
    {
        self.alive = alive;
    }

    /// The state this cell takes in the next generation, given how many of
    /// its eight neighbours are alive now.
    pub fn next_state(&self, alive_neighbor_count: u8) -> (r: bool)
        ensures
            r == life_rule(self@, alive_neighbor_count as int),
    {
        if self.alive {
            alive_neighbor_count == 2 || alive_neighbor_count == 3
        } else {
            alive_neighbor_count == 3
        }
    }
}

} // verus!
