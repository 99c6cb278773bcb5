//! The seats of one table and the two moves a philosopher makes on them.
//!
//! A [`TableState`] is what the table's lock protects. Whatever is done to it,
//! no two neighbours eat at once: the type keeps that as its invariant, so it
//! holds of every value that any holder of the lock ever sees.
use vstd::prelude::*;
use crate::error::ConfigurationError;
use crate::seating::{
    left_neighbour_of, left_of, lemma_neighbours_are_others, lemma_neighbours_mutual,
    lemma_neighbours_unfolded, right_neighbour_of, right_of, PID,
};

verus! {

/// What a philosopher is doing.
#[derive(Clone, Copy, Debug, PartialEq, Eq, Structural)]
pub enum PhilosopherState {
    Thinking,
    Eating,
}

/// The philosopher in seat `id` eats.
pub open spec fn eating(seats: Seq<PhilosopherState>, id: int) -> bool {
    seats[id] == PhilosopherState::Eating
}

/// The philosopher in seat `id` cannot start eating: a neighbour eats.
pub open spec fn blocked(seats: Seq<PhilosopherState>, id: int) -> bool {
    ||| seats[left_of(id, seats.len() as int)] == PhilosopherState::Eating
    ||| seats[right_of(id, seats.len() as int)] == PhilosopherState::Eating
}

/// No two neighbours eat at once: whoever eats has two thinking neighbours.
pub open spec fn peaceful(seats: Seq<PhilosopherState>) -> bool {
    forall|id: int| 0 <= id < seats.len() && #[trigger] eating(seats, id) ==> !blocked(seats, id)
}

/// A table of `n` at which everybody thinks.
pub open spec fn all_thinking(n: nat) -> Seq<PhilosopherState> {
    Seq::new(n, |id: int| PhilosopherState::Thinking)
}

/// Nobody eats at a fresh table, so it is peaceful.
pub proof fn lemma_all_thinking_is_peaceful(n: nat)
    ensures
        peaceful(all_thinking(n)),
{
    assert forall|id: int| 0 <= id < n && #[trigger] eating(all_thinking(n), id) implies !blocked(
        all_thinking(n),
        id,
    ) by {}
}

/// A philosopher that is not blocked may start eating without breaking the peace.
pub proof fn lemma_sitting_keeps_peace(seats: Seq<PhilosopherState>, id: int)
    requires
        peaceful(seats),
        2 <= seats.len(),
        0 <= id < seats.len(),
        !blocked(seats, id),
    ensures
        peaceful(seats.update(id, PhilosopherState::Eating)),
{
    let n = seats.len() as int;
    let after = seats.update(id, PhilosopherState::Eating);
    lemma_neighbours_are_others(id, n);
    lemma_neighbours_unfolded(id, n);
    assert forall|other: int| 0 <= other < n && #[trigger] eating(after, other) implies !blocked(
        after,
        other,
    ) by {
        lemma_neighbours_unfolded(other, n);
        lemma_neighbours_mutual(other, n);
        if other != id {
            assert(eating(seats, other));
        }
    }
}

/// A philosopher may stop eating at any time without breaking the peace.
pub proof fn lemma_rising_keeps_peace(seats: Seq<PhilosopherState>, id: int)
    requires
        peaceful(seats),
        0 <= id < seats.len(),
    ensures
        peaceful(seats.update(id, PhilosopherState::Thinking)),
{
    let n = seats.len() as int;
    let after = seats.update(id, PhilosopherState::Thinking);
    assert forall|other: int| 0 <= other < n && #[trigger] eating(after, other) implies !blocked(
        after,
        other,
    ) by {
        lemma_neighbours_unfolded(other, n);
        assert(eating(seats, other));
    }
}

/// Writes `status` into seat `id`, all at once.
fn put(seats: &mut Vec<PhilosopherState>, id: PID, status: PhilosopherState)
    requires
        id < old(seats)@.len(),
    ensures
        final(seats)@ == old(seats)@.update(id as int, status),
    no_unwind
{
    seats[id] = status;
}

/// The seats of a table for `N` philosophers.
///
/// Its view is the sequence of the philosophers' states, seat by seat. Every
/// value has exactly `N` seats, `N` is at least two, and the seats are
/// [`peaceful`]; the methods that report on a table say so in their `ensures`.
pub struct TableState<const N: usize> {
    seats: Vec<PhilosopherState>,
}

impl<const N: usize> View for TableState<N> {
    type V = Seq<PhilosopherState>;

    closed spec fn view(&self) -> Seq<PhilosopherState> {
        self.seats@
    }
}

impl<const N: usize> TableState<N> {
    #[verifier::type_invariant]
    spec fn well_formed(&self) -> bool {
        &&& 2 <= N
        &&& self.seats@.len() == N
        &&& peaceful(self.seats@)
    }

    /// Lays a table at which everybody thinks. A table needs two seats at least.
    pub fn new() -> (made: Result<Self, ConfigurationError>)
        ensures
            made is Err <==> N < 2,
            made matches Err(e) ==> e == ConfigurationError::TooFewPhilosophers,
            made matches Ok(table) ==> table@ == all_thinking(N as nat),
    {
        if N < 2 {
            return Err(ConfigurationError::TooFewPhilosophers);
        }
        let mut seats: Vec<PhilosopherState> = Vec::new();
        let mut laid: usize = 0;
        while laid < N
            invariant
                laid <= N,
                seats@ == all_thinking(laid as nat),
            decreases N - laid,
        {
            seats.push(PhilosopherState::Thinking);
            laid = laid + 1;
        }
        proof {
            lemma_all_thinking_is_peaceful(N as nat);
        }
        Ok(TableState { seats })
    }

    /// What the philosopher in seat `id` is doing.
    pub fn status(&self, id: PID) -> (status: PhilosopherState)
        requires
            id < N,
        ensures
            status == self@[id as int],
    {
        proof {
            use_type_invariant(self);
        }
        self.seats[id]
    }

    /// A copy of all seats, in order.
    pub fn snapshot(&self) -> (seats: Vec<PhilosopherState>)
        ensures
            seats@ == self@,
            seats@.len() == N,
            2 <= N,
            peaceful(seats@),
    {
        proof {
            use_type_invariant(self);
        }
        let mut seats: Vec<PhilosopherState> = Vec::new();
        let mut copied: usize = 0;
        while copied < N
            invariant
                copied <= N,
                self.seats@.len() == N,
                seats@ == self.seats@.take(copied as int),
            decreases N - copied,
        {
            seats.push(self.seats[copied]);
            copied = copied + 1;
        }
        seats
    }

    /// Whether the philosopher in seat `id` has to wait: a neighbour is eating.
    pub fn must_wait(&self, id: PID) -> (waits: bool)
        requires
            id < N,
        ensures
            waits == blocked(self@, id as int),
    {
        proof {
            use_type_invariant(self);
        }
        let left: PID = left_neighbour_of::<N>(id);
        let right: PID = right_neighbour_of::<N>(id);
        self.seats[left] == PhilosopherState::Eating || self.seats[right] == PhilosopherState::Eating
    }

    /// The philosopher in seat `id` starts eating if no neighbour eats, and
    /// otherwise leaves the table as it is. Returns whether it now eats.
    pub fn try_acquire(&mut self, id: PID) -> (seated: bool)
        requires
            id < N,
        ensures
            seated == !blocked(old(self)@, id as int),
            seated ==> final(self)@ == old(self)@.update(id as int, PhilosopherState::Eating),
            !seated ==> final(self)@ == old(self)@,
            old(self)@.len() == N,
            final(self)@.len() == N,
            peaceful(final(self)@),
    {
        proof {
            use_type_invariant(&*self);
        }
        if self.must_wait(id) {
            false
        } else {
            proof {
                lemma_sitting_keeps_peace(self.seats@, id as int);
            }
            put(&mut self.seats, id, PhilosopherState::Eating);
            true
        }
    }

    /// The philosopher in seat `id` goes back to thinking. Returns the two
    /// philosophers to wake, left then right: the only ones who may have been
    /// waiting for this.
    pub fn release(&mut self, id: PID) -> (wake: (PID, PID))
        requires
            id < N,
        ensures
            final(self)@ == old(self)@.update(id as int, PhilosopherState::Thinking),
            wake.0 == left_of(id as int, N as int),
            wake.1 == right_of(id as int, N as int),
            wake.0 < N,
            wake.1 < N,
            old(self)@.len() == N,
            final(self)@.len() == N,
            peaceful(final(self)@),
    {
        proof {
            use_type_invariant(&*self);
            lemma_rising_keeps_peace(self.seats@, id as int);
        }
        put(&mut self.seats, id, PhilosopherState::Thinking);
        (left_neighbour_of::<N>(id), right_neighbour_of::<N>(id))
    }
}

} // verus!
