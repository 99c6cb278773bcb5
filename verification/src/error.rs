//! What can go wrong: a table that cannot be laid, and a lock or a signal
//! that broke.
use vstd::prelude::*;

verus! {

/// Why a configuration was turned down before anything was built.
#[derive(Clone, Copy, Debug, PartialEq, Eq, Structural)]
pub enum ConfigurationError {
    /// Fewer than two seats: a lone philosopher would be its own neighbour.
    TooFewPhilosophers,
    /// The shortest pause is not below the longest, so no pause can be drawn.
    EmptyDelayRange,
}

/// A failure of what the table is built on. It is fatal for the philosopher
/// that meets it.
#[derive(Clone, Copy, Debug, PartialEq, Eq, Structural)]
pub enum Fault {
    /// Another holder of the lock panicked; the seats may be mid-change.
    Poisoned,
    /// The philosopher's signal let it go although a neighbour was eating.
    BrokenSignal,
}

} // verus!
