//! A dinner with an end: every philosopher wants a given number of meals.
//!
//! However the philosophers' moves interleave, such a dinner cannot get
//! stuck and cannot go on for ever: while somebody still wants to eat some
//! move is possible, and every move brings the end one step nearer.
use vstd::prelude::*;
use crate::laws::{lemma_move_keeps_peace, Move};
use crate::seating::{left_of, lemma_neighbours_unfolded, right_of};
use crate::state::{eating, peaceful, PhilosopherState};

verus! {

/// A dinner in progress.
pub struct Dinner {
    /// What each philosopher is doing.
    pub seats: Seq<PhilosopherState>,
    /// How many meals each philosopher has yet to finish, the one it may be
    /// eating right now included.
    pub appetite: Seq<nat>,
}

/// The moves that philosopher `id` has yet to make: two for each meal, one
/// less when it has sat down to a meal already.
pub open spec fn moves_of(dinner: Dinner, id: int) -> int {
    2 * dinner.appetite[id] - (if eating(dinner.seats, id) {
        1int
    } else {
        0int
    })
}

/// The moves that the philosophers in the first `upto` seats have yet to make.
pub open spec fn moves_among(dinner: Dinner, upto: nat) -> int
    decreases upto,
{
    if upto == 0 {
        0
    } else {
        moves_among(dinner, (upto - 1) as nat) + moves_of(dinner, upto - 1)
    }
}

impl Dinner {
    /// The dinner makes sense: two seats at least, an appetite for each, no
    /// two neighbours eating, and whoever eats had an appetite for that meal.
    pub open spec fn well_formed(self) -> bool {
        &&& 2 <= self.seats.len()
        &&& self.appetite.len() == self.seats.len()
        &&& peaceful(self.seats)
        &&& forall|id: int|
            0 <= id < self.seats.len() && #[trigger] eating(self.seats, id) ==> self.appetite[id]
                > 0
    }

    /// Everybody has had all its meals and is back to thinking.
    pub open spec fn over(self) -> bool {
        forall|id: int|
            0 <= id < self.seats.len() ==> !(#[trigger] eating(self.seats, id))
                && self.appetite[id] == 0
    }

    /// Whether `step` can be made now: a thinking philosopher with an
    /// appetite may start eating unless it is blocked, and an eating one may
    /// stop.
    pub open spec fn can(self, step: Move) -> bool {
        match step {
            Move::Acquire(id) => step.allowed(self.seats) && !eating(self.seats, id)
                && self.appetite[id] > 0,
            Move::Release(id) => step.allowed(self.seats) && eating(self.seats, id),
        }
    }

    /// The dinner after `step`: the seats change as the move says, and a
    /// philosopher that stops eating has one meal less to go.
    pub open spec fn after(self, step: Move) -> Dinner {
        match step {
            Move::Acquire(id) => Dinner { seats: step.apply(self.seats), appetite: self.appetite },
            Move::Release(id) => Dinner {
                seats: step.apply(self.seats),
                appetite: self.appetite.update(id, (self.appetite[id] - 1) as nat),
            },
        }
    }

    /// How many moves the whole table has yet to make.
    pub open spec fn moves_left(self) -> int {
        moves_among(self, self.seats.len())
    }
}

/// Two dinners that agree on the first `upto` seats have as many moves to
/// make there.
proof fn lemma_moves_among_agree(one: Dinner, other: Dinner, upto: nat)
    requires
        upto <= one.seats.len(),
        upto <= other.seats.len(),
        upto <= one.appetite.len(),
        upto <= other.appetite.len(),
        forall|id: int| 0 <= id < upto ==> one.seats[id] == other.seats[id],
        forall|id: int| 0 <= id < upto ==> one.appetite[id] == other.appetite[id],
    ensures
        moves_among(one, upto) == moves_among(other, upto),
    decreases upto,
{
    if upto > 0 {
        lemma_moves_among_agree(one, other, (upto - 1) as nat);
    }
}

/// Two dinners that differ in seat `id` alone differ in their moves by what
/// philosopher `id` has to make.
proof fn lemma_moves_among_differ_in_one(one: Dinner, other: Dinner, id: int, upto: nat)
    requires
        0 <= id < upto <= one.seats.len(),
        one.seats.len() == other.seats.len(),
        one.appetite.len() == one.seats.len(),
        other.appetite.len() == one.seats.len(),
        forall|at: int| 0 <= at < upto && at != id ==> one.seats[at] == other.seats[at],
        forall|at: int| 0 <= at < upto && at != id ==> one.appetite[at] == other.appetite[at],
    ensures
        moves_among(one, upto) - moves_of(one, id) == moves_among(other, upto) - moves_of(
            other,
            id,
        ),
    decreases upto,
{
    if upto - 1 == id {
        lemma_moves_among_agree(one, other, (upto - 1) as nat);
    } else {
        lemma_moves_among_differ_in_one(one, other, id, (upto - 1) as nat);
    }
}

/// Nobody owes a negative number of moves, so the first `upto` philosophers
/// owe none only if each of them owes none.
proof fn lemma_moves_among_bounds(dinner: Dinner, upto: nat)
    requires
        dinner.well_formed(),
        upto <= dinner.seats.len(),
    ensures
        0 <= moves_among(dinner, upto),
        forall|id: int| 0 <= id < upto ==> 0 <= #[trigger] moves_of(dinner, id) <= moves_among(dinner, upto),
    decreases upto,
{
    if upto > 0 {
        lemma_moves_among_bounds(dinner, (upto - 1) as nat);
        let last = upto - 1;
        if eating(dinner.seats, last) {
            assert(dinner.appetite[last] > 0);
        }
        assert(0 <= moves_of(dinner, last));
    }
}

/// When everybody among the first `upto` is done, they owe no moves.
proof fn lemma_moves_among_none(dinner: Dinner, upto: nat)
    requires
        upto <= dinner.seats.len(),
        dinner.over(),
    ensures
        moves_among(dinner, upto) == 0,
    decreases upto,
{
    if upto > 0 {
        lemma_moves_among_none(dinner, (upto - 1) as nat);
        assert(!eating(dinner.seats, upto - 1));
    }
}

/// No deadlock: as long as the dinner is not over, some philosopher can move.
pub proof fn lemma_dinner_goes_on(dinner: Dinner)
    requires
        dinner.well_formed(),
        !dinner.over(),
    ensures
        exists|step: Move| #[trigger] dinner.can(step),
{
    let n = dinner.seats.len() as int;
    if exists|id: int| 0 <= id < n && #[trigger] eating(dinner.seats, id) {
        let id = choose|id: int| 0 <= id < n && #[trigger] eating(dinner.seats, id);
        assert(dinner.can(Move::Release(id)));
    } else {
        let id = choose|id: int|
            0 <= id < n && !(!(#[trigger] eating(dinner.seats, id)) && dinner.appetite[id] == 0);
        lemma_neighbours_unfolded(id, n);
        assert(!eating(dinner.seats, left_of(id, n)));
        assert(!eating(dinner.seats, right_of(id, n)));
        assert(dinner.can(Move::Acquire(id)));
    }
}

/// No endless dinner: a move that can be made leaves a dinner that makes
/// sense, with exactly one move less to go.
pub proof fn lemma_move_brings_the_end_nearer(dinner: Dinner, step: Move)
    requires
        dinner.well_formed(),
        dinner.can(step),
    ensures
        dinner.after(step).well_formed(),
        dinner.after(step).moves_left() == dinner.moves_left() - 1,
{
    let next = dinner.after(step);
    let id = step.mover();
    lemma_move_keeps_peace(dinner.seats, step);
    assert forall|at: int| 0 <= at < next.seats.len() && #[trigger] eating(next.seats, at) implies next.appetite[at] > 0 by {
        if at != id {
            assert(eating(dinner.seats, at));
        }
    }
    lemma_moves_among_differ_in_one(dinner, next, id, dinner.seats.len());
}

/// The count is honest: no moves are left exactly when the dinner is over.
pub proof fn lemma_over_when_no_moves_left(dinner: Dinner)
    requires
        dinner.well_formed(),
    ensures
        0 <= dinner.moves_left(),
        dinner.moves_left() == 0 <==> dinner.over(),
{
    lemma_moves_among_bounds(dinner, dinner.seats.len());
    if dinner.over() {
        lemma_moves_among_none(dinner, dinner.seats.len());
    }
    if dinner.moves_left() == 0 {
        assert forall|id: int| 0 <= id < dinner.seats.len() implies !(#[trigger] eating(
            dinner.seats,
            id,
        )) && dinner.appetite[id] == 0 by {
            assert(moves_of(dinner, id) == 0);
            if eating(dinner.seats, id) {
                assert(dinner.appetite[id] > 0);
            }
        }
    }
}

} // verus!
