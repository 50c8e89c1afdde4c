//! The random choices, which come from the `rand` crate, and the one method of
//! `String` that the generator needs a contract for. Nothing in this file is
//! proved: each contract states what the outside function's source or
//! documentation gives.

use rand::seq::SliceRandom;
use rand::Rng;
use vstd::prelude::*;

verus! {

/// `rand::rngs::ThreadRng`, a handle to the calling thread's generator. The
/// library only carries it from where it is made to where it is drawn from.
#[verifier::external_type_specification]
#[verifier::external_body]
pub struct ExThreadRng(rand::rngs::ThreadRng);

/// `rand::thread_rng` returns a handle to the generator of the calling
/// thread, which is seeded from the operating system when the thread first
/// asks for it. Nothing is claimed of the handle. Where the system cannot
/// supply a seed the call panics; no argument of this library decides that.
pub assume_specification[ rand::thread_rng ]() -> rand::rngs::ThreadRng;

/// `String::push` appends one character to the end of the string.
pub assume_specification[ String::push ](text: &mut String, ch: char)
    ensures
        final(text)@ == old(text)@.push(ch),
;

/// Calls `Rng::gen_range` with the half-open range from zero to `bound`. The
/// number that comes back lies in that range, whatever the generator yields;
/// on an empty range the call panics, so `bound` must be positive.
#[verifier::external_body]
pub(crate) fn random_index(rng: &mut rand::rngs::ThreadRng, bound: usize) -> (index: usize)
    requires
        bound > 0,
    ensures
        index < bound,
{
    rng.gen_range(0..bound)
}

/// Calls `SliceRandom::shuffle` on the characters. The shuffle only swaps
/// elements of the slice, so the same characters are there afterwards, each as
/// often as before; in which order is left open.
#[verifier::external_body]
pub(crate) fn shuffle_chars(chars: &mut Vec<char>, rng: &mut rand::rngs::ThreadRng)
    ensures
        final(chars)@.to_multiset() == old(chars)@.to_multiset(),
{
    chars.shuffle(rng)
}

} // verus!
