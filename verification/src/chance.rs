//! Random choices, drawn from the thread-local generator of the `rand` crate.
//!
//! What a draw gives is chance, so nothing fixes it; what is fixed is what
//! each draw was asked for.  `drawn_below` and `shuffled_into` say that a
//! value is one that a call with given arguments may have returned.

use vstd::prelude::*;
use rand::Rng;
use rand::seq::SliceRandom;

verus! {

/// Calls `Rng::gen_range(0, n)` on `rand::thread_rng()`: a number drawn from
/// `0..n`.  The crate panics when the range is empty.  Which number comes out
/// is left open.
#[verifier::external_body]
pub(crate) fn random_below(n: usize) -> (r: usize)
    requires
        n > 0,
    ensures
        r < n,
{
    rand::thread_rng().gen_range(0, n)
}

/// Calls `SliceRandom::shuffle` with `rand::thread_rng()` on `v` and hands it
/// back: the elements are put in a random order, made by swapping them, so
/// the same elements remain.  Which order comes out is left open.
#[verifier::external_body]
pub(crate) fn shuffled(v: Vec<usize>) -> (r: Vec<usize>)
    ensures
        r@.to_multiset() == v@.to_multiset(),
{
    let mut v = v;
    v.shuffle(&mut rand::thread_rng());
    v
}

/// `d` is a number that a draw from `0..n` may have given.
pub closed spec fn drawn_below(n: usize, d: usize) -> bool {
    call_ensures(random_below, (n,), d)
}

/// `r` is an order that shuffling `v` may have given.
pub closed spec fn shuffled_into(v: Vec<usize>, r: Vec<usize>) -> bool {
    call_ensures(shuffled, (v,), r)
}

/// The number that a draw from `0..n` gave is a possible draw from `0..n`.
pub(crate) proof fn lemma_drawn(n: usize, d: usize)
    requires
        call_ensures(random_below, (n,), d),
    ensures
        drawn_below(n, d),
{
}

/// The order that shuffling `v` gave is a possible shuffle of `v`.
pub(crate) proof fn lemma_shuffled(v: Vec<usize>, r: Vec<usize>)
    requires
        call_ensures(shuffled, (v,), r),
    ensures
        shuffled_into(v, r),
{
}

/// A possible draw from `0..n` lies in `0..n`.
pub proof fn lemma_drawn_below(n: usize, d: usize)
    requires
        drawn_below(n, d),
    ensures
        d < n,
{
}

/// A possible shuffle of `v` holds the elements of `v`.
pub proof fn lemma_shuffled_into(v: Vec<usize>, r: Vec<usize>)
    requires
        shuffled_into(v, r),
    ensures
        r@.to_multiset() == v@.to_multiset(),
{
}

} // verus!
