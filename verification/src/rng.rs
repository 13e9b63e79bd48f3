//! The one trusted item of the crate: the random draws that the setup
//! negotiation uses.
use vstd::prelude::*;

verus! {

/// Relies on rand::random: a fresh value drawn from the thread-local
/// generator. Nothing can be promised of a random value, so this contract
/// promises nothing; every caller must hold for every outcome.
pub assume_specification<T>[ rand::random::<T> ]() -> (r: T)
    where
        rand::distributions::Standard: rand::distributions::Distribution<T>,
;

} // verus!
