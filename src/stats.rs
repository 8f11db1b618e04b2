use vstd::prelude::*;

verus! {

/// Running totals of a simulation.
#[derive(Clone, Copy, Debug, PartialEq, Eq, Structural)]
pub struct Stats {
    /// Number of generations computed so far.
    pub generation: u64,
    /// Dead-to-alive transitions over all generations.
    pub cells_created: u64,
    /// Alive-to-dead transitions over all generations.
    pub cells_destroyed: u64,
    /// Live cells in the current generation.
    pub current_population: u64,
}

impl Stats {
    /// All counters at zero.
    pub fn new() -> (r: Stats)
        ensures
            r.generation == 0,
            r.cells_created == 0,
            r.cells_destroyed == 0,
            r.current_population == 0,
    {
        Stats { generation: 0, cells_created: 0, cells_destroyed: 0, current_population: 0 }
    }
}

} // verus!
