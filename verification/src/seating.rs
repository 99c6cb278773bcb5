//! The ring of seats: every philosopher has a left and a right neighbour.
use vstd::prelude::*;
use vstd::arithmetic::div_mod::{lemma_mod_add_multiples_vanish, lemma_mod_self_0, lemma_small_mod};

verus! {

/// A philosopher's identifier: its seat, counted from zero.
pub type PID = usize;

/// The seat to the left of `id` on a ring of `n` seats.
pub open spec fn left_of(id: int, n: int) -> int {
    (id + n - 1) % n
}

/// The seat to the right of `id` on a ring of `n` seats.
pub open spec fn right_of(id: int, n: int) -> int {
    (id + 1) % n
}

/// Both neighbours without the modulus: one step down or up, wrapping at the ends.
pub proof fn lemma_neighbours_unfolded(id: int, n: int)
    requires
        0 <= id < n,
    ensures
        left_of(id, n) == (if id == 0 { n - 1 } else { id - 1 }),
        right_of(id, n) == (if id == n - 1 { 0 } else { id + 1 }),
        0 <= left_of(id, n) < n,
        0 <= right_of(id, n) < n,
{
    if id == 0 {
        lemma_small_mod((n - 1) as nat, n as nat);
    } else {
        lemma_mod_add_multiples_vanish(id - 1, n);
        lemma_small_mod((id - 1) as nat, n as nat);
    }
    if id == n - 1 {
        lemma_mod_self_0(n);
    } else {
        lemma_small_mod((id + 1) as nat, n as nat);
    }
}

/// Left and right undo each other: `id` is the right neighbour of its left
/// neighbour and the left neighbour of its right neighbour.
pub proof fn lemma_neighbours_mutual(id: int, n: int)
    requires
        0 <= id < n,
    ensures
        right_of(left_of(id, n), n) == id,
        left_of(right_of(id, n), n) == id,
{
    lemma_neighbours_unfolded(id, n);
    lemma_neighbours_unfolded(left_of(id, n), n);
    lemma_neighbours_unfolded(right_of(id, n), n);
}

/// With two seats or more nobody is its own neighbour.
pub proof fn lemma_neighbours_are_others(id: int, n: int)
    requires
        0 <= id < n,
        2 <= n,
    ensures
        left_of(id, n) != id,
        right_of(id, n) != id,
{
    lemma_neighbours_unfolded(id, n);
}

/// At a table for two, each philosopher's left and right neighbour are the
/// same one: the other philosopher.
pub proof fn lemma_table_for_two(id: int)
    requires
        0 <= id < 2,
    ensures
        left_of(id, 2) == right_of(id, 2),
        left_of(id, 2) == 1 - id,
{
    lemma_neighbours_unfolded(id, 2);
}

/// The left neighbour of `id` at a table of `N`.
pub fn left_neighbour_of<const N: usize>(id: PID) -> (left: PID)
    requires
        id < N,
    ensures
        left == left_of(id as int, N as int),
        left < N,
{
    proof {
        lemma_neighbours_unfolded(id as int, N as int);
    }
    if id == 0 {
        N - 1
    } else {
        id - 1
    }
}

/// The right neighbour of `id` at a table of `N`.
pub fn right_neighbour_of<const N: usize>(id: PID) -> (right: PID)
    requires
        id < N,
    ensures
        right == right_of(id as int, N as int),
        right < N,
{
    proof {
        lemma_neighbours_unfolded(id as int, N as int);
    }
    if id == N - 1 {
        0
    } else {
        id + 1
    }
}

} // verus!
