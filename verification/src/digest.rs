//! The content digest used throughout: node addresses, inner-hashed value
//! ranges and store keys all use the same 32-byte hash function.

use vstd::prelude::*;

use hash_db::Hasher;
use keccak_hasher::KeccakHasher;

verus! {

/// Width in bytes of the configured hash function's output.
pub const DIGEST_LENGTH: usize = 32;

/// What the configured hash function returns on a byte sequence; left
/// uninterpreted, the outside implementation computes it.
pub uninterp spec fn digest_raw(b: Seq<u8>) -> Seq<u8>;

/// The digest of a byte sequence, normalized to its documented 32-byte
/// width so that every digest has a known length.
pub open spec fn digest_of(b: Seq<u8>) -> Seq<u8> {
    if digest_raw(b).len() == 32 {
        digest_raw(b)
    } else {
        Seq::new(32, |i: int| 0u8)
    }
}

/// Every digest is exactly 32 bytes wide.
pub proof fn lemma_digest_len(b: Seq<u8>)
    ensures
        digest_of(b).len() == 32,
{
}

/// Relies on `keccak_hasher::KeccakHasher::hash` (Keccak-256): the digest
/// depends on the input bytes alone and is 32 bytes wide.
#[verifier::external_body]
pub(crate) fn hash_bytes(x: &[u8]) -> (r: [u8; 32])
    ensures
        r@ == digest_raw(x@),
        r@ == digest_of(x@),
{
    KeccakHasher::hash(x)
}

} // verus!
