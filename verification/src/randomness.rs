use vstd::prelude::*;

verus! {

/// The integer that the nois generator derives from a 32-byte random seed
/// for the inclusive range `[begin, end]`. It depends on the arguments
/// alone: the same seed and bounds give the same integer on every machine.
pub uninterp spec fn nois_pick(randomness: Seq<u8>, begin: usize, end: usize) -> usize;

/// Relies on nois::ints_in_range: from a 32-byte seed it derives integers
/// uniformly in the inclusive range [begin, end], a pure function of the
/// seed and the bounds.
#[verifier::external_body]
fn ints_in_range_first(randomness: &Vec<u8>, begin: usize, end: usize) -> (r: usize)
    requires
        randomness@.len() == 32,
        begin <= end,
    ensures
        r == nois_pick(randomness@, begin, end),
        begin <= r <= end,
{
    let mut seed = [0u8; 32];
    seed.copy_from_slice(randomness.as_slice());
    let picks = nois::ints_in_range(seed, 1, begin, end);
    picks[0]
}

/// Maps a 32-byte random value to a prize-pool index, uniformly over
/// `[0, pool_len)`.
pub fn derive_prize_index(randomness: &Vec<u8>, pool_len: usize) -> (i: usize)
    requires
        randomness@.len() == 32,
        pool_len >= 1,
    ensures
        i < pool_len,
        i == nois_pick(randomness@, 0, (pool_len - 1) as usize),
{
    ints_in_range_first(randomness, 0, pool_len - 1)
}

} // verus!
