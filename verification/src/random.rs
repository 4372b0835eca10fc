//! Randomness: random picks and generated passwords.
use vstd::prelude::*;

verus! {

/// Whether `c` is an ASCII letter or digit.
pub open spec fn is_ascii_alphanumeric(c: char) -> bool {
    ('a' <= c <= 'z') || ('A' <= c <= 'Z') || ('0' <= c <= '9')
}

/// Calls `rand::seq::IteratorRandom::choose` on the range `0..len` with the
/// thread-local generator. Claimed, as its documentation says: `None` exactly
/// when the range is empty, else one of its elements. Which one is left
/// unsaid: it is random.
#[verifier::external_body]
pub(crate) fn random_index(len: usize) -> (r: Option<usize>)
    ensures
        r is None <==> len == 0,
        r matches Some(i) ==> i < len,
{
    rand::seq::IteratorRandom::choose(0..len, &mut rand::thread_rng())
}

/// Calls `rand::distributions::DistString::sample_string` of the
/// `Alphanumeric` distribution with the thread-local generator. Claimed, as
/// its source shows: `len` characters, each an ASCII letter or digit. Which
/// ones is left unsaid: they are random.
#[verifier::external_body]
pub(crate) fn random_alphanumeric(len: usize) -> (r: String)
    ensures
        r@.len() == len,
        forall|i: int| 0 <= i < len ==> is_ascii_alphanumeric(#[trigger] r@[i]),
{
    rand::distributions::DistString::sample_string(
        &rand::distributions::Alphanumeric,
        &mut rand::thread_rng(),
        len,
    )
}

} // verus!
