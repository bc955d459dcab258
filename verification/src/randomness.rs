//! Sources of randomness behind trusted contracts: the generator itself,
//! shuffling and sampling, and fresh game ids.

use vstd::prelude::*;

verus! {

/// rand's standard generator, declared so that values of it can flow
/// through verified signatures. Verus sees nothing inside it.
#[verifier::external_type_specification]
#[verifier::external_body]
pub struct ExStdRng(rand::rngs::StdRng);

/// Relies on rand's SeedableRng::seed_from_u64: a generator built from a
/// seed, so that a board can be reproduced from the same seed.
#[verifier::external_body]
pub(crate) fn rng_from_seed(seed: u64) -> rand::rngs::StdRng {
    rand::SeedableRng::seed_from_u64(seed)
}

/// Relies on rand's Rng::gen::<bool>: one random draw. Nothing is promised
/// of its value; callers state what holds of either outcome.
#[verifier::external_body]
pub(crate) fn random_bool(rng: &mut rand::rngs::StdRng) -> bool {
    rand::Rng::gen(rng)
}

/// Relies on rand's SliceRandom::shuffle, which permutes the slice in
/// place: the length and the multiset of elements are unchanged.
#[verifier::external_body]
pub(crate) fn shuffle<T>(rng: &mut rand::rngs::StdRng, v: &mut Vec<T>)
    ensures
        final(v)@.len() == old(v)@.len(),
        final(v)@.to_multiset() == old(v)@.to_multiset(),
{
    rand::seq::SliceRandom::shuffle(v.as_mut_slice(), rng)
}

/// Relies on rand's SliceRandom::choose_multiple, which samples the asked
/// number of elements at pairwise distinct positions: every element comes
/// from the slice, and pairwise distinct words stay pairwise distinct.
#[verifier::external_body]
pub(crate) fn sample_words(rng: &mut rand::rngs::StdRng, words: &Vec<String>, amount: usize) -> (r:
    Vec<String>)
    requires
        amount <= words@.len(),
    ensures
        r@.len() == amount,
        forall|i: int|
            0 <= i < r@.len() ==> exists|j: int|
                0 <= j < words@.len() && (#[trigger] r@[i])@ == words@[j]@,
        (forall|i: int, j: int| 0 <= i < j < words@.len() ==> words@[i]@ != words@[j]@) ==> (forall|
            i: int,
            j: int,
        | 0 <= i < j < r@.len() ==> r@[i]@ != r@[j]@),
{
    rand::seq::SliceRandom::choose_multiple(words.as_slice(), rng, amount).cloned().collect()
}

/// Relies on uuid's Uuid::new_v4 and its simple format: a fresh random id
/// rendered as 32 hexadecimal characters.
#[verifier::external_body]
pub(crate) fn new_game_id() -> (r: String)
    ensures
        r@.len() == 32,
{
    uuid::Uuid::new_v4().simple().to_string()
}

} // verus!
