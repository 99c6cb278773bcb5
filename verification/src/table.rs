//! The table that the philosophers share: its seats behind one lock, and one
//! signal per seat on which a hungry philosopher sleeps until a neighbour
//! stops eating.
use vstd::prelude::*;
use std::ops::DerefMut;
use std::sync::{Condvar, LockResult, Mutex, MutexGuard, PoisonError};
use crate::error::{ConfigurationError, Fault};
use crate::seating::{left_of, right_of, PID};
use crate::state::{blocked, eating, peaceful, PhilosopherState, TableState};

verus! {

/// `std::sync::Mutex`, opaque to the verifier.
#[verifier::external_type_specification]
#[verifier::external_body]
#[verifier::reject_recursive_types(T)]
pub struct ExMutex<T: ?Sized>(Mutex<T>);

/// `std::sync::MutexGuard`, opaque to the verifier.
#[verifier::external_type_specification]
#[verifier::external_body]
#[verifier::reject_recursive_types(T)]
pub struct ExMutexGuard<'a, T: ?Sized + 'a>(MutexGuard<'a, T>);

/// `std::sync::PoisonError`, opaque to the verifier.
#[verifier::external_type_specification]
#[verifier::external_body]
#[verifier::reject_recursive_types(T)]
pub struct ExPoisonError<T>(PoisonError<T>);

/// `std::sync::Condvar`, opaque to the verifier.
#[verifier::external_type_specification]
#[verifier::external_body]
pub struct ExCondvar(Condvar);

/// `Mutex::new` wraps a value in a lock. Nothing is claimed of the result.
pub assume_specification<T>[ Mutex::<T>::new ](value: T) -> (lock: Mutex<T>)
;

/// `Mutex::lock` blocks until the lock is free. Nothing is claimed of what
/// the guard holds: other threads decide that. It fails when an earlier
/// holder panicked. Std leaves open what happens when the calling thread
/// holds the lock already; no function of this module locks while it holds
/// a guard.
pub assume_specification<'a, T: ?Sized>[ Mutex::<T>::lock ](lock: &'a Mutex<T>) -> (guard:
    LockResult<MutexGuard<'a, T>>)
;

/// `MutexGuard::deref_mut` lends the seats that the lock protects. Nothing is
/// claimed of them: other threads decide what they are.
#[verifier::external_body]
fn seats_behind<'a, 'b, const N: usize>(guard: &'a mut MutexGuard<'b, TableState<N>>) -> (seats:
    &'a mut TableState<N>) {
    guard.deref_mut()
}

/// `Condvar::new` makes a signal with nobody waiting on it.
pub assume_specification[ Condvar::new ]() -> (signal: Condvar)
;

/// `Condvar::notify_one` wakes one thread that waits on the signal, if any.
pub assume_specification[ Condvar::notify_one ](signal: &Condvar)
;

/// `Condvar::wait_while` runs `condition` on the protected value, and while
/// it answers `true` gives up the lock, sleeps until notified, takes the lock
/// again and asks anew. `condition` is only ever run on a value of the
/// protected type, so it must accept every one. The call returns the guard
/// once `condition` answered `false`, which is all that is claimed of a
/// success: of what the guard then holds nothing is said. It fails when the
/// lock was poisoned. Std may panic when one signal is used with two locks;
/// each signal of a [`Table`] is only ever used with that table's own lock.
pub assume_specification<'a, T, F: FnMut(&mut T) -> bool>[ Condvar::wait_while::<T, F> ](
    signal: &Condvar,
    guard: MutexGuard<'a, T>,
    condition: F,
) -> (woken: LockResult<MutexGuard<'a, T>>)
    requires
        forall|value: &mut T| condition.requires((value,)),
    ensures
        woken is Ok ==> exists|value: &mut T| #[trigger] condition.ensures((value,), false),
;

/// What a release did.
#[derive(Debug)]
pub struct Released {
    /// The two philosophers that were woken, left then right.
    pub woken: (PID, PID),
    /// The seats as the release left them, before the lock was let go.
    pub seen: Vec<PhilosopherState>,
}

/// A table for `N` philosophers, to be shared by reference among their threads.
#[verifier::reject_recursive_types(N)]
pub struct Table<const N: usize> {
    seats: Mutex<TableState<N>>,
    signals: Vec<Condvar>,
}

impl<const N: usize> Table<N> {
    #[verifier::type_invariant]
    spec fn well_formed(&self) -> bool {
        self.signals@.len() == N
    }

    /// `outcome` is something that `work` can return when run on some table.
    pub open spec fn yields<R, F: FnOnce(&mut TableState<N>) -> R>(work: F, outcome: R) -> bool {
        exists|seats: &mut TableState<N>| #[trigger] work.ensures((seats,), outcome)
    }

    /// Lays a table at which everybody thinks. A table needs two seats at least.
    pub fn new() -> (made: Result<Self, ConfigurationError>)
        ensures
            made is Err <==> N < 2,
            made matches Err(e) ==> e == ConfigurationError::TooFewPhilosophers,
    {
        let state = match TableState::<N>::new() {
            Ok(state) => state,
            Err(e) => {
                return Err(e);
            },
        };
        let mut signals: Vec<Condvar> = Vec::new();
        let mut made: usize = 0;
        while made < N
            invariant
                made <= N,
                signals@.len() == made,
            decreases N - made,
        {
            signals.push(Condvar::new());
            made = made + 1;
        }
        Ok(Table { seats: Mutex::new(state), signals })
    }

    /// Runs `work` on the seats while holding the table's lock, and hands back
    /// what it returned. The lock is released on every way out. `work` has to
    /// cope with any table, and must not reach for this table's lock itself.
    pub fn with_lock<R, F: FnOnce(&mut TableState<N>) -> R>(&self, work: F) -> (done: Result<
        R,
        Fault,
    >)
        requires
            forall|seats: &mut TableState<N>| work.requires((seats,)),
        ensures
            done matches Ok(outcome) ==> Self::yields(work, outcome),
            done matches Err(fault) ==> fault == Fault::Poisoned,
    {
        let ghost asked = work;
        match unpoisoned(self.seats.lock()) {
            Ok(mut guard) => {
                let outcome = work(seats_behind(&mut guard));
                assert(Self::yields(asked, outcome));
                Ok(outcome)
            },
            Err(fault) => Err(fault),
        }
    }

    /// The seats as they stood at some moment during the call.
    pub fn snapshot(&self) -> (seen: Result<Vec<PhilosopherState>, Fault>)
        ensures
            seen matches Ok(seats) ==> seats@.len() == N && peaceful(seats@),
            seen matches Err(fault) ==> fault == Fault::Poisoned,
    {
        let look = |seats: &mut TableState<N>| -> (copy: Vec<PhilosopherState>)
            ensures
                copy@.len() == N,
                peaceful(copy@),
            { seats.snapshot() };
        self.with_lock(look)
    }
}

/// Philosopher `id` picks up both forks: it waits until neither neighbour
/// eats and then starts eating, all under the table's lock. While it waits
/// the lock is free, and it sleeps on its own signal. Returns the seats as
/// they stood when it sat down, before the lock was let go.
pub fn acquire_forks<const N: usize>(id: PID, table: &Table<N>) -> (done: Result<
    Vec<PhilosopherState>,
    Fault,
>)
    requires
        id < N,
    ensures
        done matches Ok(seen) ==> {
            &&& seen@.len() == N
            &&& eating(seen@, id as int)
            &&& !blocked(seen@, id as int)
            &&& peaceful(seen@)
        },
{
    proof {
        use_type_invariant(table);
    }
    let guard = match unpoisoned(table.seats.lock()) {
        Ok(guard) => guard,
        Err(fault) => {
            return Err(fault);
        },
    };
    let neighbour_eats = |seats: &mut TableState<N>| -> (waits: bool) { seats.must_wait(id) };
    let mut guard = match unpoisoned(table.signals[id].wait_while(guard, neighbour_eats)) {
        Ok(guard) => guard,
        Err(fault) => {
            return Err(fault);
        },
    };
    sit_down(id, seats_behind(&mut guard))
}

/// Philosopher `id` puts both forks down: it goes back to thinking and wakes
/// its left and its right neighbour, all under the table's lock. Returns the
/// two it woke and the seats as it left them.
pub fn release_forks<const N: usize>(id: PID, table: &Table<N>) -> (done: Result<Released, Fault>)
    requires
        id < N,
    ensures
        done matches Ok(released) ==> {
            &&& released.woken.0 == left_of(id as int, N as int)
            &&& released.woken.1 == right_of(id as int, N as int)
            &&& released.seen@.len() == N
            &&& released.seen@[id as int] == PhilosopherState::Thinking
            &&& peaceful(released.seen@)
        },
        done matches Err(fault) ==> fault == Fault::Poisoned,
{
    proof {
        use_type_invariant(table);
    }
    let mut guard = match unpoisoned(table.seats.lock()) {
        Ok(guard) => guard,
        Err(fault) => {
            return Err(fault);
        },
    };
    let seats = seats_behind(&mut guard);
    let woken = seats.release(id);
    let seen = seats.snapshot();
    table.signals[woken.0].notify_one();
    table.signals[woken.1].notify_one();
    Ok(Released { woken, seen })
}

/// What a philosopher does with the seats once its wait is over: it sits
/// down to eat and takes note of the table. Should a neighbour be eating
/// all the same, the signal has failed it, and the seats stay as they are.
pub fn sit_down<const N: usize>(id: PID, seats: &mut TableState<N>) -> (done: Result<
    Vec<PhilosopherState>,
    Fault,
>)
    requires
        id < N,
    ensures
        blocked(old(seats)@, id as int) ==> done == Err::<Vec<PhilosopherState>, Fault>(
            Fault::BrokenSignal,
        ) && final(seats)@ == old(seats)@,
        !blocked(old(seats)@, id as int) ==> final(seats)@ == old(seats)@.update(
            id as int,
            PhilosopherState::Eating,
        ),
        done matches Ok(seen) ==> {
            &&& seen@ == final(seats)@
            &&& seen@.len() == N
            &&& eating(seen@, id as int)
            &&& !blocked(seen@, id as int)
            &&& peaceful(seen@)
        },
        done is Ok <==> !blocked(old(seats)@, id as int),
{
    if seats.try_acquire(id) {
        let seen = seats.snapshot();
        assert(eating(seen@, id as int));
        Ok(seen)
    } else {
        Err(Fault::BrokenSignal)
    }
}

/// Reads the answer of a lock: the guard it gave, or, when an earlier holder
/// panicked and left the lock poisoned, the fault. This is where every
/// function of this module learns whether it goes on or fails.
pub fn unpoisoned<G>(answer: LockResult<G>) -> (outcome: Result<G, Fault>)
    ensures
        answer matches Ok(guard) ==> outcome == Ok::<G, Fault>(guard),
        answer is Err ==> outcome == Err::<G, Fault>(Fault::Poisoned),
{
    match answer {
        Ok(guard) => Ok(guard),
        Err(_) => Err(Fault::Poisoned),
    }
}

} // verus!
