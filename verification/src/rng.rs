//! The one source of nondeterminism: the random byte that the Cxkk
//! instruction masks with its immediate.

use vstd::prelude::*;

verus! {

/// Relies on rand::random: one value drawn from the thread-local generator.
/// Nothing is promised of the value; whoever uses it must hold for every
/// outcome.
pub assume_specification<T>[ rand::random::<T> ]() -> (r: T)
    where
        rand::distributions::Standard: rand::distributions::Distribution<T>,
;

} // verus!
