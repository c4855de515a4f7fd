//! Header store: an ordered collection of canonical headers keyed by
//! height, built once from RPC records and read-only afterwards.

use vstd::prelude::*;
use crate::codec::{BlockHeaderRpc, BitcoinHeader, HeaderView, spec_to_canonical};
use crate::{BlockReaderError, DuplicateHeightError};

verus! {

/// Holds block headers keyed by height, in strictly ascending height
/// order, already converted to canonical byte order.
#[derive(Debug)]
pub struct BlockReader {
    headers: Vec<(u32, BitcoinHeader)>,
}

/// The view of a sequence of stored pairs.
pub open spec fn pairs_view(s: Seq<(u32, BitcoinHeader)>) -> Seq<(u32, HeaderView)> {
    Seq::new(s.len(), |i: int| (s[i].0, s[i].1@))
}

/// Heights strictly increase along the sequence.
pub open spec fn sorted_by_height(s: Seq<(u32, HeaderView)>) -> bool {
    forall|i: int, j: int| 0 <= i < j < s.len() ==> (#[trigger] s[i]).0 < (#[trigger] s[j]).0
}

/// `e` is the entry that record `rec` produces: keyed by the record's
/// height, holding the record's canonical form.
pub open spec fn canonical_entry_of(e: (u32, HeaderView), rec: BlockHeaderRpc) -> bool {
    e.0 == rec@.height && e.1 == spec_to_canonical(rec@)
}

/// Some entry of `s` is the one record `rec` produces.
#[verifier::opaque]
pub open spec fn stores_record(s: Seq<(u32, HeaderView)>, rec: BlockHeaderRpc) -> bool {
    exists|j: int| 0 <= j < s.len() && canonical_entry_of(#[trigger] s[j], rec)
}

/// Every entry of `s` comes from one of the first `n` records.
#[verifier::opaque]
pub open spec fn entries_from_records(
    s: Seq<(u32, HeaderView)>,
    records: Seq<BlockHeaderRpc>,
    n: int,
) -> bool {
    forall|j: int|
        0 <= j < s.len() ==> exists|i: int|
            0 <= i < n && canonical_entry_of(#[trigger] s[j], records[i])
}

/// No two of the first `n` records share a height.
#[verifier::opaque]
pub open spec fn distinct_heights(records: Seq<BlockHeaderRpc>, n: int) -> bool {
    forall|i1: int, i2: int|
        0 <= i1 < i2 < n ==> (#[trigger] records[i1])@.height != (#[trigger] records[i2])@.height
}

/// Height `h` occurs in two different records.
#[verifier::opaque]
pub open spec fn duplicated_height(records: Seq<BlockHeaderRpc>, h: u32) -> bool {
    exists|i1: int, i2: int|
        0 <= i1 < i2 < records.len() && (#[trigger] records[i1])@.height
            == (#[trigger] records[i2])@.height && records[i2]@.height == h
}

impl View for BlockReader {
    type V = Seq<(u32, HeaderView)>;

    closed spec fn view(&self) -> Seq<(u32, HeaderView)> {
        pairs_view(self.headers@)
    }
}

/// The canonical form of a well-formed record is well-formed: reversing
/// a field keeps its length.
proof fn lemma_canonical_wf(rec: BlockHeaderRpc)
    requires
        rec@.wf(),
    ensures
        spec_to_canonical(rec@).wf(),
{
}

/// Inserting the entry of record number `n` at its sorted position keeps
/// the store sorted, keeps every entry accounted for, and keeps the
/// processed records' heights distinct.
proof fn lemma_insert_step(
    s: Seq<(u32, HeaderView)>,
    records: Seq<BlockHeaderRpc>,
    n: int,
    pos: int,
    e: (u32, HeaderView),
)
    requires
        0 <= n < records.len(),
        0 <= pos <= s.len(),
        sorted_by_height(s),
        forall|i: int| 0 <= i < n ==> stores_record(s, #[trigger] records[i]),
        entries_from_records(s, records, n),
        distinct_heights(records, n),
        canonical_entry_of(e, records[n]),
        forall|k: int| 0 <= k < pos ==> (#[trigger] s[k]).0 < e.0,
        forall|k: int| pos <= k < s.len() ==> e.0 < (#[trigger] s[k]).0,
        forall|j: int| 0 <= j < s.len() ==> (#[trigger] s[j]).1.wf(),
        e.1.wf(),
    ensures
        sorted_by_height(s.insert(pos, e)),
        forall|i: int| 0 <= i < n + 1 ==> stores_record(s.insert(pos, e), #[trigger] records[i]),
        entries_from_records(s.insert(pos, e), records, n + 1),
        distinct_heights(records, n + 1),
        forall|j: int| 0 <= j < s.insert(pos, e).len() ==> (#[trigger] s.insert(pos, e)[j]).1.wf(),
{
    reveal(stores_record);
    reveal(entries_from_records);
    reveal(distinct_heights);
    let t = s.insert(pos, e);
    assert(t.len() == s.len() + 1);
    assert forall|j: int| 0 <= j < t.len() implies #[trigger] t[j] == (if j < pos {
        s[j]
    } else if j == pos {
        e
    } else {
        s[j - 1]
    }) by {}
    assert forall|i: int, j: int| 0 <= i < j < t.len() implies (#[trigger] t[i]).0
        < (#[trigger] t[j]).0 by {}
    assert forall|i: int| 0 <= i < n + 1 implies stores_record(t, #[trigger] records[i]) by {
        if i < n {
            let j0 = choose|j: int| 0 <= j < s.len() && canonical_entry_of(#[trigger] s[j], records[i]);
            let j1: int = if j0 < pos {
                j0
            } else {
                j0 + 1
            };
            assert(canonical_entry_of(t[j1], records[i]));
        } else {
            assert(canonical_entry_of(t[pos], records[i]));
        }
    }
    assert forall|j: int| 0 <= j < t.len() implies exists|i: int|
        0 <= i < n + 1 && canonical_entry_of(#[trigger] t[j], records[i]) by {
        if j == pos {
            assert(canonical_entry_of(t[j], records[n]));
        } else {
            let j0: int = if j < pos {
                j
            } else {
                j - 1
            };
            let i0 = choose|i: int| 0 <= i < n && canonical_entry_of(#[trigger] s[j0], records[i]);
            assert(canonical_entry_of(t[j], records[i0]));
        }
    }
    assert forall|i1: int, i2: int| 0 <= i1 < i2 < n + 1 implies (#[trigger] records[i1])@.height
        != (#[trigger] records[i2])@.height by {
        if i2 == n {
            let j0 = choose|j: int|
                0 <= j < s.len() && canonical_entry_of(#[trigger] s[j], records[i1]);
            if j0 < pos {
                assert(s[j0].0 < e.0);
            } else {
                assert(e.0 < s[j0].0);
            }
        }
    }
    assert forall|j: int| 0 <= j < t.len() implies (#[trigger] t[j]).1.wf() by {}
}

/// A stored entry whose height matches record number `n` pins a
/// duplicate: some earlier record shares that height.
proof fn lemma_duplicate_found(
    s: Seq<(u32, HeaderView)>,
    records: Seq<BlockHeaderRpc>,
    n: int,
    j: int,
)
    requires
        0 <= n < records.len(),
        0 <= j < s.len(),
        entries_from_records(s, records, n),
        s[j].0 == records[n]@.height,
    ensures
        duplicated_height(records, records[n]@.height),
{
    reveal(entries_from_records);
    reveal(duplicated_height);
    let i0 = choose|i: int| 0 <= i < n && canonical_entry_of(#[trigger] s[j], records[i]);
    assert(records[i0]@.height == records[n]@.height);
}

impl BlockReader {
    /// Heights strictly increase along the sequence (so each height is
    /// unique) and every stored header has the canonical field lengths.
    pub open spec fn wf(self) -> bool {
        &&& sorted_by_height(self@)
        &&& forall|i: int| 0 <= i < self@.len() ==> (#[trigger] self@[i]).1.wf()
    }

    /// Some stored entry has this height.
    pub open spec fn spec_contains_height(self, height: u32) -> bool {
        exists|i: int| 0 <= i < self@.len() && (#[trigger] self@[i]).0 == height
    }

    /// Converts one RPC record to canonical byte order.
    pub fn into_internal(&self, header: BlockHeaderRpc) -> (r: BitcoinHeader)
        ensures
            r@ == spec_to_canonical(header@),
    {
        header.to_canonical()
    }

    /// Builds a store from RPC records: converts each record to canonical
    /// form and inserts it keyed by its height, keeping ascending order.
    /// Returns `DuplicateHeightError` exactly when two records share a
    /// height; the reported height is a duplicated one.
    #[verifier::rlimit(100)]
    pub fn new_from_records(records: Vec<BlockHeaderRpc>) -> (r: Result<
        BlockReader,
        DuplicateHeightError,
    >)
        requires
            forall|i: int| 0 <= i < records@.len() ==> (#[trigger] records@[i])@.wf(),
        ensures
            match r {
                Ok(reader) => {
                    &&& reader.wf()
                    &&& reader@.len() == records@.len()
                    &&& forall|i: int|
                        0 <= i < records@.len() ==> stores_record(reader@, #[trigger] records@[i])
                    &&& entries_from_records(reader@, records@, records@.len() as int)
                    &&& distinct_heights(records@, records@.len() as int)
                },
                Err(e) => duplicated_height(records@, e.height),
            },
    {
        let n = records.len();
        let mut headers: Vec<(u32, BitcoinHeader)> = Vec::new();
        let mut idx: usize = 0;
        proof {
            reveal(stores_record);
            reveal(entries_from_records);
            reveal(distinct_heights);
            assert(entries_from_records(pairs_view(headers@), records@, 0));
            assert(distinct_heights(records@, 0));
        }
        while idx < n
            invariant
                n == records@.len(),
                idx <= n,
                forall|i: int| 0 <= i < n ==> (#[trigger] records@[i])@.wf(),
                headers@.len() == idx,
                sorted_by_height(pairs_view(headers@)),
                forall|j: int|
                    0 <= j < headers@.len() ==> (#[trigger] pairs_view(headers@)[j]).1.wf(),
                forall|i: int| 0 <= i < idx ==> stores_record(pairs_view(headers@), #[trigger] records@[i]),
                entries_from_records(pairs_view(headers@), records@, idx as int),
                distinct_heights(records@, idx as int),
            decreases n - idx,
        {
            let rec = &records[idx];
            let height = rec.height;
            let canonical = rec.to_canonical();
            let ghost s = pairs_view(headers@);
            let m = headers.len();
            let mut pos: usize = 0;
            while pos < m && headers[pos].0 < height
                invariant
                    m == headers@.len(),
                    s == pairs_view(headers@),
                    pos <= m,
                    forall|k: int| 0 <= k < pos ==> (#[trigger] s[k]).0 < height,
                    sorted_by_height(s),
                decreases m - pos,
            {
                assert(s[pos as int].0 == headers@[pos as int].0);
                pos += 1;
            }
            if pos < m && headers[pos].0 == height {
                proof {
                    assert(s[pos as int].0 == height);
                    lemma_duplicate_found(s, records@, idx as int, pos as int);
                }
                return Err(DuplicateHeightError { height });
            }
            proof {
                // Entries from `pos` on have heights above `height`.
                if pos < m {
                    assert(s[pos as int].0 != height && !(s[pos as int].0 < height));
                    assert forall|k: int| pos <= k < m implies height < (#[trigger] s[k]).0 by {
                        if k > pos {
                            assert(s[pos as int].0 < s[k].0);
                        }
                    }
                }
                lemma_canonical_wf(records@[idx as int]);
                lemma_insert_step(
                    s,
                    records@,
                    idx as int,
                    pos as int,
                    (height, canonical@),
                );
            }
            let ghost old_headers = headers@;
            headers.insert(pos, (height, canonical));
            proof {
                assert(pairs_view(headers@) =~= pairs_view(old_headers).insert(
                    pos as int,
                    (height, canonical@),
                ));
            }
            idx += 1;
        }
        let reader = BlockReader { headers };
        Ok(reader)
    }

    /// Looks up the canonical header stored at `height`. Returns
    /// `BlockReaderError` exactly when no record has that height.
    pub fn get_block_header(&self, height: u32) -> (r: Result<BitcoinHeader, BlockReaderError>)
        ensures
            match r {
                Ok(h) => exists|j: int|
                    0 <= j < self@.len() && (#[trigger] self@[j]).0 == height && self@[j].1 == h@,
                Err(_) => !self.spec_contains_height(height),
            },
    {
        let n = self.headers.len();
        let mut i: usize = 0;
        while i < n
            invariant
                n == self.headers@.len(),
                self@ == pairs_view(self.headers@),
                i <= n,
                forall|k: int| 0 <= k < i ==> (#[trigger] self@[k]).0 != height,
            decreases n - i,
        {
            if self.headers[i].0 == height {
                let h = self.headers[i].1.clone_header();
                assert(self@[i as int].0 == height && self@[i as int].1 == h@);
                return Ok(h);
            }
            assert(self@[i as int].0 != height);
            i += 1;
        }
        Err(BlockReaderError)
    }

    /// All stored `(height, header)` pairs in strictly increasing height
    /// order: the restartable ascending traversal of the store.
    pub fn iter_ascending(&self) -> (r: Vec<(u32, BitcoinHeader)>)
        ensures
            r@.len() == self@.len(),
            forall|j: int| 0 <= j < self@.len() ==> ((#[trigger] r@[j]).0, r@[j].1@) == self@[j],
            self.wf() ==> forall|i: int, j: int|
                0 <= i < j < r@.len() ==> (#[trigger] r@[i]).0 < (#[trigger] r@[j]).0,
    {
        match self.get_block_headers() {
            Ok(v) => v,
            Err(_) => {
                // `get_block_headers` never fails.
                proof {
                    assert(false);
                }
                Vec::new()
            },
        }
    }

    /// All stored `(height, header)` pairs, in ascending height order
    /// (ascending because the store keeps its entries sorted).
    pub fn get_block_headers(&self) -> (r: Result<Vec<(u32, BitcoinHeader)>, BlockReaderError>)
        ensures
            match r {
                Ok(v) => v@.len() == self@.len() && forall|j: int|
                    0 <= j < self@.len() ==> ((#[trigger] v@[j]).0, v@[j].1@) == self@[j],
                Err(_) => false,
            },
    {
        let n = self.headers.len();
        let mut out: Vec<(u32, BitcoinHeader)> = Vec::new();
        let mut i: usize = 0;
        while i < n
            invariant
                n == self.headers@.len(),
                self@ == pairs_view(self.headers@),
                i <= n,
                out@.len() == i,
                forall|j: int| 0 <= j < i ==> ((#[trigger] out@[j]).0, out@[j].1@) == self@[j],
            decreases n - i,
        {
            let h = self.headers[i].1.clone_header();
            out.push((self.headers[i].0, h));
            i += 1;
        }
        Ok(out)
    }
}

} // verus!
