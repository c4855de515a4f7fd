//! Bitcoin block-header canonicalization and chain-linkage verification.
//!
//! Header records arrive in RPC byte order (hash-valued fields reversed
//! relative to the consensus layout). This library converts them to the
//! canonical 80-byte serialization, stores them ordered by height, checks
//! hash-chain continuity between consecutive headers, and provides the
//! single-header previous-hash commitment check.

use vstd::prelude::*;

pub mod codec;
pub mod commit;
pub mod hash;
pub mod store;
pub mod verify;


verus! {

/// Lookup by height found no record at that height.
#[derive(Debug, Clone, PartialEq, Eq, Structural)]
pub struct BlockReaderError;

/// The input source is not a well-formed sequence of header records
/// (bad hex encoding or a byte field of the wrong length).
#[derive(Debug, Clone, PartialEq, Eq, Structural)]
pub struct MalformedInputError;

/// Two input records share a height. Duplicate heights are a
/// data-integrity defect and are never silently resolved.
#[derive(Debug, Clone, PartialEq, Eq, Structural)]
pub struct DuplicateHeightError {
    pub height: u32,
}

} // verus!
