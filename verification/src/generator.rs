//! The generator behind the mask stream, and the hash that seeds it.
//!
//! Nothing in this file is proved. The generator is `rand_chacha`'s ChaCha
//! with 8 rounds, which Verus cannot look into; the hash is the standard
//! library's default hasher. The file gives names to what they compute and
//! states of each call that its result is the named one: the same string
//! and the same seed always give the same bytes. The rest of the crate is
//! verified against these statements.

use rand::Rng;
use rand::SeedableRng;
use rand_chacha::ChaCha8Rng;
use std::collections::hash_map::DefaultHasher;
use std::hash::Hash;
use vstd::prelude::*;

verus! {

/// `rand_chacha::ChaCha8Rng`, the generator behind the mask stream.
#[verifier::external_type_specification]
#[verifier::external_body]
pub struct ExChaCha8Rng(ChaCha8Rng);

/// The triple that the draw after the next `k` draws will take from the
/// generator `rng`: for `k == 0` the next one.
pub uninterp spec fn upcoming_triple(rng: ChaCha8Rng, k: nat) -> (u8, u8, u8);

/// The triple that draw number `k`, counted from 0, takes from a generator
/// freshly seeded with `seed`.
pub uninterp spec fn seeded_triple(seed: u64, k: nat) -> (u8, u8, u8);

/// What a default hasher has been fed once the string `s` has been hashed
/// into one that had been fed `before`.
pub uninterp spec fn hashed_str(before: Seq<Seq<u8>>, s: Seq<char>) -> Seq<Seq<u8>>;

/// `<str as Hash>::hash` into a default hasher. What it feeds the hasher
/// depends on the string and on nothing else.
#[verifier::external_body]
pub(crate) fn hash_str(s: &str, state: &mut DefaultHasher)
    ensures
        final(state)@ == hashed_str(old(state)@, s@),
{
    s.hash(state)
}

/// `SeedableRng::seed_from_u64` for `ChaCha8Rng`. The generator it returns,
/// and so every triple drawn from it, depends on the seed and on nothing
/// else.
#[verifier::external_body]
pub(crate) fn chacha_from_u64(seed: u64) -> (rng: ChaCha8Rng)
    ensures
        forall|k: nat| #[trigger] upcoming_triple(rng, k) == seeded_triple(seed, k),
{
    ChaCha8Rng::seed_from_u64(seed)
}

/// `Rng::gen::<[u8; 3]>` on a `ChaCha8Rng`: takes the next triple from the
/// generator, so that every later one comes one draw sooner.
#[verifier::external_body]
pub(crate) fn draw_triple(rng: &mut ChaCha8Rng) -> (triple: (u8, u8, u8))
    ensures
        triple == upcoming_triple(*old(rng), 0),
        forall|k: nat| #[trigger]
            upcoming_triple(*final(rng), k) == upcoming_triple(*old(rng), k + 1),
{
    let bytes = rng.gen::<[u8; 3]>();
    (bytes[0], bytes[1], bytes[2])
}

} // verus!
