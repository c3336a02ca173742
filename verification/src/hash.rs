//! Content hashing for deduplication: a fixed-size digest of a byte
//! sequence, used purely for equality testing, never for integrity.

use vstd::prelude::*;
use std::collections::hash_map::DefaultHasher;
use std::hash::Hash;
use std::hash::Hasher;

verus! {

/// The digest that the standard hasher produces for a byte sequence. The
/// hasher is seeded with fixed keys, so the digest is a function of the
/// bytes alone; nothing more is assumed of it.
pub uninterp spec fn hash_of(bytes: Seq<u8>) -> u64;

/// Relies on std's `DefaultHasher`: `DefaultHasher::new` is documented to
/// build the same hasher as every other `new` call, so feeding it the bytes
/// and finishing yields a digest that depends on the bytes alone.
#[verifier::external_body]
fn digest_bytes(bytes: &[u8]) -> (r: u64)
    ensures
        r == hash_of(bytes@),
{
    let mut hasher = DefaultHasher::new();
    bytes.hash(&mut hasher);
    hasher.finish()
}

/// Content hashing for byte containers.
pub trait HashOne: View<V = Seq<u8>> {
    /// A digest of the bytes, a function of the bytes alone.
    fn hash_one(&self) -> (r: u64)
        ensures
            r == hash_of(self@),
    ;
}

impl HashOne for [u8] {
    fn hash_one(&self) -> (r: u64) {
        digest_bytes(self)
    }
}

} // verus!
