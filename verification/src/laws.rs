//! What holds of a table however the philosophers take their turns.
//!
//! The moves of [`TableState`](crate::state::TableState) are replayed here on
//! plain sequences, so that the laws speak of whole histories: every table
//! that can be reached is peaceful, a move touches the mover's seat only, a
//! release matters to the two neighbours only, and the table never gets stuck.
use vstd::prelude::*;
use crate::seating::{
    left_of, lemma_neighbours_are_others, lemma_neighbours_mutual, lemma_neighbours_unfolded,
    right_of,
};
use crate::state::{
    all_thinking, blocked, eating, lemma_all_thinking_is_peaceful, lemma_rising_keeps_peace,
    lemma_sitting_keeps_peace, peaceful, PhilosopherState,
};

verus! {

/// One move at the table, by the philosopher it names.
pub enum Move {
    /// The philosopher starts eating.
    Acquire(int),
    /// The philosopher goes back to thinking.
    Release(int),
}

impl Move {
    /// The philosopher that makes the move.
    pub open spec fn mover(self) -> int {
        match self {
            Move::Acquire(id) => id,
            Move::Release(id) => id,
        }
    }

    /// Whether the move may be made at `seats`: the mover has a seat, and to
    /// start eating it must not be blocked.
    pub open spec fn allowed(self, seats: Seq<PhilosopherState>) -> bool {
        match self {
            Move::Acquire(id) => 0 <= id < seats.len() && !blocked(seats, id),
            Move::Release(id) => 0 <= id < seats.len(),
        }
    }

    /// The table after the move.
    pub open spec fn apply(self, seats: Seq<PhilosopherState>) -> Seq<PhilosopherState> {
        match self {
            Move::Acquire(id) => seats.update(id, PhilosopherState::Eating),
            Move::Release(id) => seats.update(id, PhilosopherState::Thinking),
        }
    }
}

/// The table after all of `moves`, made in order from `seats`.
pub open spec fn play(seats: Seq<PhilosopherState>, moves: Seq<Move>) -> Seq<PhilosopherState>
    decreases moves.len(),
{
    if moves.len() == 0 {
        seats
    } else {
        moves.last().apply(play(seats, moves.drop_last()))
    }
}

/// Each of `moves` is allowed at the table that the moves before it lead to.
pub open spec fn legal(seats: Seq<PhilosopherState>, moves: Seq<Move>) -> bool
    decreases moves.len(),
{
    moves.len() == 0 || (legal(seats, moves.drop_last()) && moves.last().allowed(
        play(seats, moves.drop_last()),
    ))
}

/// An allowed move keeps a peaceful table peaceful, and keeps its size.
pub proof fn lemma_move_keeps_peace(seats: Seq<PhilosopherState>, step: Move)
    requires
        2 <= seats.len(),
        peaceful(seats),
        step.allowed(seats),
    ensures
        peaceful(step.apply(seats)),
        step.apply(seats).len() == seats.len(),
{
    match step {
        Move::Acquire(id) => lemma_sitting_keeps_peace(seats, id),
        Move::Release(id) => lemma_rising_keeps_peace(seats, id),
    }
}

/// Mutual exclusion: whatever legal moves are made from a table of two or
/// more at which everybody thinks, no two neighbours ever eat at once.
pub proof fn lemma_reachable_tables_are_peaceful(n: nat, moves: Seq<Move>)
    requires
        2 <= n,
        legal(all_thinking(n), moves),
    ensures
        peaceful(play(all_thinking(n), moves)),
        play(all_thinking(n), moves).len() == n,
    decreases moves.len(),
{
    if moves.len() == 0 {
        lemma_all_thinking_is_peaceful(n);
    } else {
        lemma_reachable_tables_are_peaceful(n, moves.drop_last());
        lemma_move_keeps_peace(play(all_thinking(n), moves.drop_last()), moves.last());
    }
}

/// A philosopher's state changes by its own moves only: a move leaves every
/// seat but the mover's as it was.
pub proof fn lemma_move_touches_own_seat_only(seats: Seq<PhilosopherState>, step: Move, other: int)
    requires
        0 <= step.mover() < seats.len(),
        0 <= other < seats.len(),
        other != step.mover(),
    ensures
        step.apply(seats)[other] == seats[other],
{
}

/// Who has to wait after philosopher `id` stopped eating is, for everybody
/// but the two neighbours of `id`, who had to wait before: the neighbours are
/// the only ones worth waking.
pub proof fn lemma_release_matters_to_neighbours_only(
    seats: Seq<PhilosopherState>,
    id: int,
    other: int,
)
    requires
        0 <= id < seats.len(),
        0 <= other < seats.len(),
        other != left_of(id, seats.len() as int),
        other != right_of(id, seats.len() as int),
    ensures
        blocked(seats.update(id, PhilosopherState::Thinking), other) == blocked(seats, other),
{
    let n = seats.len() as int;
    lemma_neighbours_unfolded(other, n);
    lemma_neighbours_mutual(id, n);
    lemma_neighbours_mutual(other, n);
}

/// After philosopher `id` stopped eating, a neighbour of `id` is blocked only
/// by its own other neighbour.
pub proof fn lemma_release_frees_the_neighbours(seats: Seq<PhilosopherState>, id: int)
    requires
        2 <= seats.len(),
        0 <= id < seats.len(),
    ensures
        ({
            let n = seats.len() as int;
            let after = seats.update(id, PhilosopherState::Thinking);
            &&& blocked(after, left_of(id, n)) ==> eating(seats, left_of(left_of(id, n), n))
            &&& blocked(after, right_of(id, n)) ==> eating(seats, right_of(right_of(id, n), n))
        }),
{
    let n = seats.len() as int;
    lemma_neighbours_unfolded(id, n);
    lemma_neighbours_mutual(id, n);
    lemma_neighbours_are_others(id, n);
    lemma_neighbours_unfolded(left_of(id, n), n);
    lemma_neighbours_unfolded(right_of(id, n), n);
}

/// Nobody sleeps who could eat: every philosopher in `asleep`, the ones that
/// wait on their signals, has a seat and is blocked.
pub open spec fn nobody_oversleeps(seats: Seq<PhilosopherState>, asleep: Set<int>) -> bool {
    forall|id: int| #[trigger]
        asleep.contains(id) ==> 0 <= id < seats.len() && blocked(seats, id)
}

/// A philosopher that finds itself blocked may go to sleep.
pub proof fn lemma_the_blocked_may_sleep(seats: Seq<PhilosopherState>, asleep: Set<int>, id: int)
    requires
        nobody_oversleeps(seats, asleep),
        0 <= id < seats.len(),
        blocked(seats, id),
    ensures
        nobody_oversleeps(seats, asleep.insert(id)),
{
}

/// A philosopher that starts eating need wake nobody: whoever was blocked
/// before still is.
pub proof fn lemma_acquire_need_wake_nobody(
    seats: Seq<PhilosopherState>,
    asleep: Set<int>,
    id: int,
)
    requires
        nobody_oversleeps(seats, asleep),
        0 <= id < seats.len(),
    ensures
        nobody_oversleeps(seats.update(id, PhilosopherState::Eating), asleep),
{
    let n = seats.len() as int;
    let after = seats.update(id, PhilosopherState::Eating);
    assert forall|sleeper: int| #[trigger] asleep.contains(sleeper) implies 0 <= sleeper < n
        && blocked(after, sleeper) by {
        lemma_neighbours_unfolded(sleeper, n);
    }
}

/// No wake-up is lost: when the philosopher that stops eating wakes its two
/// neighbours, everybody who is left asleep is still blocked.
pub proof fn lemma_waking_the_neighbours_is_enough(
    seats: Seq<PhilosopherState>,
    asleep: Set<int>,
    id: int,
)
    requires
        nobody_oversleeps(seats, asleep),
        0 <= id < seats.len(),
    ensures
        nobody_oversleeps(
            seats.update(id, PhilosopherState::Thinking),
            asleep.remove(left_of(id, seats.len() as int)).remove(
                right_of(id, seats.len() as int),
            ),
        ),
{
    let n = seats.len() as int;
    let after = seats.update(id, PhilosopherState::Thinking);
    let still = asleep.remove(left_of(id, n)).remove(right_of(id, n));
    assert forall|sleeper: int| #[trigger] still.contains(sleeper) implies 0 <= sleeper < n
        && blocked(after, sleeper) by {
        assert(asleep.contains(sleeper));
        lemma_release_matters_to_neighbours_only(seats, id, sleeper);
    }
}

/// The table is never stuck: either somebody eats, and may stop whenever it
/// likes, or nobody eats, and then nobody is blocked.
pub proof fn lemma_never_stuck(seats: Seq<PhilosopherState>)
    requires
        1 <= seats.len(),
    ensures
        (exists|id: int| 0 <= id < seats.len() && #[trigger] eating(seats, id) && Move::Release(
            id,
        ).allowed(seats)) || (forall|id: int|
            0 <= id < seats.len() ==> #[trigger] Move::Acquire(id).allowed(seats)),
{
    if !(exists|id: int| 0 <= id < seats.len() && #[trigger] eating(seats, id)) {
        assert forall|id: int| 0 <= id < seats.len() implies #[trigger] Move::Acquire(id).allowed(
            seats,
        ) by {
            let n = seats.len() as int;
            lemma_neighbours_unfolded(id, n);
            assert(!eating(seats, left_of(id, n)));
            assert(!eating(seats, right_of(id, n)));
        }
    }
}

} // verus!
