//! Chain-linkage verifier: checks that consecutive headers in ascending
//! height order form a valid hash chain.

use vstd::prelude::*;
use vstd::slice::slice_to_vec;
use crate::codec::HeaderView;
use crate::hash::{spec_block_hash, block_hash, bytes_eq};
use crate::store::BlockReader;

verus! {

/// Linkage verification found a mismatched previous-hash. Reports the
/// offending height together with the expected hash (the block hash of
/// the predecessor) and the actual embedded previous-hash value.
#[derive(Debug, Clone)]
pub struct ChainBreakError {
    pub height: u32,
    pub expected: Vec<u8>,
    pub actual: Vec<u8>,
}

/// The header at position `i` carries the block hash of its predecessor
/// (position `i - 1`) in its previous-hash field.
pub open spec fn chain_linked_at(s: Seq<(u32, HeaderView)>, i: int) -> bool
    recommends
        1 <= i < s.len(),
{
    s[i].1.hash_prev_block == spec_block_hash(s[i - 1].1.spec_bytes())
}

/// Every consecutive pair of headers is linked. A sequence of 0 or 1
/// headers is trivially valid.
pub open spec fn chain_valid(s: Seq<(u32, HeaderView)>) -> bool {
    forall|i: int| 1 <= i < s.len() ==> #[trigger] chain_linked_at(s, i)
}

/// Position `i` is the first break in the chain, and the error fields
/// carry its height, the expected hash, and the actual value.
pub open spec fn first_break_at(
    s: Seq<(u32, HeaderView)>,
    i: int,
    height: u32,
    expected: Seq<u8>,
    actual: Seq<u8>,
) -> bool {
    &&& !chain_linked_at(s, i)
    &&& forall|k: int| 1 <= k < i ==> #[trigger] chain_linked_at(s, k)
    &&& height == s[i].0
    &&& expected == spec_block_hash(s[i - 1].1.spec_bytes())
    &&& actual == s[i].1.hash_prev_block
}

/// Walks the stored headers in ascending height order and checks that
/// each one's previous-hash field equals the double-SHA-256 block hash
/// of its predecessor. Returns `Ok` exactly when every link holds;
/// otherwise reports the first break with full context.
#[verifier::loop_isolation(false)]
pub fn verify_chain(reader: &BlockReader) -> (r: Result<(), ChainBreakError>)
    ensures
        r is Ok ==> chain_valid(reader@),
        r matches Err(e) ==> exists|i: int|
            1 <= i < reader@.len() && #[trigger] first_break_at(
                reader@,
                i,
                e.height,
                e.expected@,
                e.actual@,
            ),
{
    let pairs = match reader.get_block_headers() {
        Ok(v) => v,
        Err(_) => {
            // `get_block_headers` never fails.
            proof {
                assert(false);
            }
            return Ok(());
        },
    };
    let n = pairs.len();
    if n == 0 {
        return Ok(());
    }
    let mut i: usize = 1;
    while i < n
        invariant
            n == pairs@.len(),
            pairs@.len() == reader@.len(),
            forall|j: int|
                0 <= j < reader@.len() ==> ((#[trigger] pairs@[j]).0, pairs@[j].1@) == reader@[j],
            1 <= i <= n,
            forall|k: int| 1 <= k < i ==> #[trigger] chain_linked_at(reader@, k),
        decreases n - i,
    {
        let prev_bytes = pairs[i - 1].1.to_bytes();
        let expected = block_hash(prev_bytes.as_slice());
        let linked = bytes_eq(pairs[i].1.hash_prev_block.as_slice(), expected.as_slice());
        proof {
            assert(pairs@[i as int].1@ == reader@[i as int].1);
            assert(pairs@[i as int - 1].1@ == reader@[i as int - 1].1);
            assert(prev_bytes@ == reader@[i as int - 1].1.spec_bytes());
            assert(linked == chain_linked_at(reader@, i as int));
        }
        if !linked {
            let actual = slice_to_vec(pairs[i].1.hash_prev_block.as_slice());
            let e = ChainBreakError { height: pairs[i].0, expected, actual };
            let res: Result<(), ChainBreakError> = Err(e);
            proof {
                let b = res->Err_0;
                assert(first_break_at(reader@, i as int, b.height, b.expected@, b.actual@));
                assert(exists|k: int|
                    1 <= k < reader@.len() && #[trigger] first_break_at(
                        reader@,
                        k,
                        b.height,
                        b.expected@,
                        b.actual@,
                    ));
            }
            return res;
        }
        i += 1;
    }
    Ok(())
}

} // verus!
