//! The block-hash function: double SHA-256 over canonical header bytes.

use vstd::prelude::*;
use sha2::{Digest, Sha256};

verus! {

/// The SHA-256 digest of a byte sequence.
pub uninterp spec fn sha256_of(bytes: Seq<u8>) -> Seq<u8>;

/// Relies on `sha2::Sha256` through `digest::Digest::digest`: the SHA-256
/// digest depends on the input bytes alone and is 32 bytes long.
#[verifier::external_body]
pub(crate) fn sha256(bytes: &[u8]) -> (r: Vec<u8>)
    ensures
        r@ == sha256_of(bytes@),
        r@.len() == 32,
{
    Sha256::digest(bytes).to_vec()
}

/// The block-hash function: double application of SHA-256.
pub open spec fn spec_block_hash(bytes: Seq<u8>) -> Seq<u8> {
    sha256_of(sha256_of(bytes))
}

/// Computes the double-SHA-256 block hash of `bytes`.
pub fn block_hash(bytes: &[u8]) -> (r: Vec<u8>)
    ensures
        r@ == spec_block_hash(bytes@),
        r@.len() == 32,
{
    let first = sha256(bytes);
    sha256(first.as_slice())
}

/// Whether two byte slices hold the same bytes.
pub fn bytes_eq(a: &[u8], b: &[u8]) -> (r: bool)
    ensures
        r == (a@ == b@),
{
    let n = a.len();
    if n != b.len() {
        return false;
    }
    let mut i: usize = 0;
    while i < n
        invariant
            n == a@.len(),
            n == b@.len(),
            i <= n,
            forall|k: int| 0 <= k < i ==> a@[k] == b@[k],
        decreases n - i,
    {
        if a[i] != b[i] {
            return false;
        }
        i += 1;
    }
    assert(a@ =~= b@);
    true
}

} // verus!
