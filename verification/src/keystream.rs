//! The mask stream: an endless, reproducible sequence of byte triples drawn
//! from a generator that is seeded by a password.
//!
//! The password is hashed to 64 bits with the standard library's default
//! hasher, and the hash seeds a ChaCha generator with 8 rounds.

use crate::generator::chacha_from_u64;
use crate::generator::draw_triple;
use crate::generator::hash_str;
use crate::generator::hashed_str;
use crate::generator::seeded_triple;
use crate::generator::upcoming_triple;
use rand_chacha::ChaCha8Rng;
use std::collections::hash_map::DefaultHasher;
use std::hash::Hasher;
use vstd::prelude::*;
use vstd::std_specs::hash::DefaultHasherAdditionalSpecFns;

verus! {

/// The seed that a password is hashed to.
pub open spec fn password_seed(password: Seq<char>) -> u64 {
    DefaultHasher::spec_finish(hashed_str(Seq::empty(), password))
}

/// Triple number `k`, counted from 0, of the mask stream of `password`.
pub open spec fn password_triple(password: Seq<char>, k: nat) -> (u8, u8, u8) {
    seeded_triple(password_seed(password), k)
}

/// The generator is at the start of the mask stream of `password`.
pub open spec fn keyed_by(rng: ChaCha8Rng, password: Seq<char>) -> bool {
    forall|k: nat| #[trigger] upcoming_triple(rng, k) == password_triple(password, k)
}

/// The generator `after` is `before` with `n` triples drawn from it.
pub open spec fn advanced(before: ChaCha8Rng, after: ChaCha8Rng, n: nat) -> bool {
    forall|k: nat| #[trigger] upcoming_triple(after, k) == upcoming_triple(before, k + n)
}

/// Makes the generator of the mask stream of a password. Any string will
/// do, the empty one too.
pub fn seed_rng_with_string(seed_string: &str) -> (rng: ChaCha8Rng)
    ensures
        keyed_by(rng, seed_string@),
{
    let mut hasher = DefaultHasher::new();
    hash_str(seed_string, &mut hasher);
    let seed = hasher.finish();
    chacha_from_u64(seed)
}

/// Draws the next triple of the stream and advances the generator by one.
pub fn next_triple(rng: &mut ChaCha8Rng) -> (triple: (u8, u8, u8))
    ensures
        triple == upcoming_triple(*old(rng), 0),
        advanced(*old(rng), *final(rng), 1),
{
    draw_triple(rng)
}

/// Two generators made from the same password, however far apart in time
/// or place, yield the same triples draw after draw, without end.
pub proof fn lemma_same_password_same_stream(
    first: ChaCha8Rng,
    second: ChaCha8Rng,
    password: Seq<char>,
)
    requires
        keyed_by(first, password),
        keyed_by(second, password),
    ensures
        forall|k: nat| upcoming_triple(first, k) == upcoming_triple(second, k),
{
}

} // verus!
