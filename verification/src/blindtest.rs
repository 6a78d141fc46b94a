//! Picking a random JACK period for a blind latency test.
use vstd::prelude::*;

verus! {

/// A random number from the thread-local generator.
///
/// Trusted: calls `rand::random::<usize>()`. Any value may come back; two
/// calls need not agree. (The generator panics if the operating system
/// cannot seed it.)
#[verifier::external_body]
fn random_usize() -> usize {
    rand::random::<usize>()
}

/// The element that the random number `random` picks: the one at its
/// remainder modulo the length.
pub fn element_for<T: Copy>(vec: &Vec<T>, random: usize) -> (r: T)
    requires
        vec@.len() > 0,
    ensures
        r == vec@[(random as int) % (vec@.len() as int)],
{
    vec[random % vec.len()]
}

/// A randomly chosen element of a non-empty vector.
pub fn random_element<T: Copy>(vec: Vec<T>) -> (r: T)
    requires
        vec@.len() > 0,
    ensures
        vec@.contains(r),
{
    let random = random_usize();
    let r = element_for(&vec, random);
    assert(vec@[(random as int) % (vec@.len() as int)] == r);
    r
}

} // verus!
