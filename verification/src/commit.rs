//! Commitment function: the single-header computation run inside the
//! verifiable-execution environment. Given a claimed previous-block hash
//! and one header's 80-byte canonical serialization, it commits a single
//! boolean: whether the header's embedded previous-hash field equals the
//! claimed value.

use vstd::prelude::*;
use vstd::slice::slice_subrange;
use crate::hash::{sha256, bytes_eq};

verus! {

/// Decides the committed output. The previous-hash field occupies bytes
/// [4, 36) of the canonical layout; the result is true exactly when that
/// field equals `claimed_prev_hash`. The double-SHA-256 digest of the
/// header is computed as the execution environment does, but is not yet
/// compared against anything: only the field equality is committed.
pub fn commitment_is_valid(claimed_prev_hash: &[u8], header_bytes: &[u8]) -> (valid: bool)
    requires
        claimed_prev_hash@.len() == 32,
        header_bytes@.len() == 80,
    ensures
        valid == (header_bytes@.subrange(4, 36) == claimed_prev_hash@),
{
    let digest = sha256(header_bytes);
    let _digest_digest = sha256(digest.as_slice());
    let embedded_prev_hash = slice_subrange(header_bytes, 4, 36);
    bytes_eq(embedded_prev_hash, claimed_prev_hash)
}

} // verus!
