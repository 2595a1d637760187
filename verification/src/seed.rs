//! From the world's seed string to its seed bytes.

use vstd::prelude::*;

verus! {

/// The 32 seed bytes that a seed string stands for: the first 32 bytes drawn
/// from the generator that SipHash 2-4 turns into after hashing the string.
pub uninterp spec fn derived_seed(seed: Seq<char>) -> Seq<u8>;

/// Calls `rand_seeder::SipHasher::from(seed).into_rng()` and fills 32 bytes
/// from the generator with `rand::Rng::fill`.
///
/// The hasher starts from fixed keys and reads the string's bytes in a fixed
/// byte order, and the generator is a pure function of the hasher's state, so
/// the bytes depend on the string alone. The contract names them and claims
/// nothing else of them.
#[verifier::external_body]
pub(crate) fn derive_seed(seed: &String) -> (bytes: [u8; 32])
    ensures
        bytes@ == derived_seed(seed@),
{
    let mut rng = rand_seeder::SipHasher::from(seed).into_rng();
    let mut bytes = [0u8; 32];
    rand::Rng::fill(&mut rng, &mut bytes);
    bytes
}

} // verus!
