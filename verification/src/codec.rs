//! Header codec: RPC-ordered records, canonical headers, hex decoding,
//! and the canonical 80-byte serialization.

use vstd::prelude::*;
use vstd::bytes::{spec_u32_to_le_bytes, u32_to_le_bytes, lemma_auto_spec_u32_to_from_le_bytes};
use vstd::slice::slice_to_vec;
use vstd::string::StringSliceAdditionalSpecFns;
use crate::MalformedInputError;

verus! {

/// A header record as presented by the JSON-RPC interface: hash-valued
/// fields (`hash`, `merkleroot`, `bits`, `previousblockhash`) are in RPC
/// byte order, the reverse of the canonical on-wire order.
#[derive(Debug)]
pub struct BlockHeaderRpc {
    pub hash: Vec<u8>,
    pub confirmations: u32,
    pub height: u32,
    pub version: u32,
    pub merkleroot: Vec<u8>,
    pub time: u32,
    pub nonce: u32,
    pub bits: Vec<u8>,
    pub previousblockhash: Vec<u8>,
}

/// Mathematical view of a [`BlockHeaderRpc`].
pub struct RpcHeaderView {
    pub hash: Seq<u8>,
    pub confirmations: u32,
    pub height: u32,
    pub version: u32,
    pub merkleroot: Seq<u8>,
    pub time: u32,
    pub nonce: u32,
    pub bits: Seq<u8>,
    pub previousblockhash: Seq<u8>,
}

impl View for BlockHeaderRpc {
    type V = RpcHeaderView;

    open spec fn view(&self) -> RpcHeaderView {
        RpcHeaderView {
            hash: self.hash@,
            confirmations: self.confirmations,
            height: self.height,
            version: self.version,
            merkleroot: self.merkleroot@,
            time: self.time,
            nonce: self.nonce,
            bits: self.bits@,
            previousblockhash: self.previousblockhash@,
        }
    }
}

impl RpcHeaderView {
    /// Every byte-valued field has the length the protocol fixes:
    /// 32-byte hashes, a 4-byte compact difficulty target.
    pub open spec fn wf(self) -> bool {
        &&& self.hash.len() == 32
        &&& self.merkleroot.len() == 32
        &&& self.bits.len() == 4
        &&& self.previousblockhash.len() == 32
    }
}

/// A block header in canonical (consensus, on-wire) byte order.
#[derive(Debug)]
pub struct BitcoinHeader {
    pub version: u32,
    pub hash_prev_block: Vec<u8>,
    pub hash_merkle_root: Vec<u8>,
    pub timestamp: u32,
    pub target_bits: Vec<u8>,
    pub nonce: u32,
}

/// Mathematical view of a [`BitcoinHeader`].
pub struct HeaderView {
    pub version: u32,
    pub hash_prev_block: Seq<u8>,
    pub hash_merkle_root: Seq<u8>,
    pub timestamp: u32,
    pub target_bits: Seq<u8>,
    pub nonce: u32,
}

impl View for BitcoinHeader {
    type V = HeaderView;

    open spec fn view(&self) -> HeaderView {
        HeaderView {
            version: self.version,
            hash_prev_block: self.hash_prev_block@,
            hash_merkle_root: self.hash_merkle_root@,
            timestamp: self.timestamp,
            target_bits: self.target_bits@,
            nonce: self.nonce,
        }
    }
}

impl HeaderView {
    /// The canonical field lengths: 32-byte hashes, 4-byte target.
    pub open spec fn wf(self) -> bool {
        &&& self.hash_prev_block.len() == 32
        &&& self.hash_merkle_root.len() == 32
        &&& self.target_bits.len() == 4
    }

    /// The canonical 80-byte serialization:
    /// version(4) ++ previous-hash(32) ++ merkle-root(32) ++ timestamp(4)
    /// ++ bits(4) ++ nonce(4), numeric fields little-endian.
    pub open spec fn spec_bytes(self) -> Seq<u8> {
        spec_u32_to_le_bytes(self.version) + self.hash_prev_block + self.hash_merkle_root
            + spec_u32_to_le_bytes(self.timestamp) + self.target_bits
            + spec_u32_to_le_bytes(self.nonce)
    }
}

/// Canonical form of an RPC record: the three reversed hash-valued fields
/// are put back into consensus byte order; numeric fields are copied.
pub open spec fn spec_to_canonical(r: RpcHeaderView) -> HeaderView {
    HeaderView {
        version: r.version,
        hash_prev_block: r.previousblockhash.reverse(),
        hash_merkle_root: r.merkleroot.reverse(),
        timestamp: r.time,
        target_bits: r.bits.reverse(),
        nonce: r.nonce,
    }
}

/// Reversing a sequence twice gives the sequence back.
pub proof fn lemma_reverse_involutive(s: Seq<u8>)
    ensures
        s.reverse().reverse() == s,
{
    assert(s.reverse().reverse() =~= s);
}

/// Round-trip endianness: reversing the three reversed fields of the
/// canonical form of any RPC record yields the record's original field
/// values, and the numeric fields are carried over unchanged.
pub proof fn lemma_to_canonical_round_trip(r: RpcHeaderView)
    ensures
        spec_to_canonical(r).hash_prev_block.reverse() == r.previousblockhash,
        spec_to_canonical(r).hash_merkle_root.reverse() == r.merkleroot,
        spec_to_canonical(r).target_bits.reverse() == r.bits,
        spec_to_canonical(r).version == r.version,
        spec_to_canonical(r).timestamp == r.time,
        spec_to_canonical(r).nonce == r.nonce,
{
    lemma_reverse_involutive(r.previousblockhash);
    lemma_reverse_involutive(r.merkleroot);
    lemma_reverse_involutive(r.bits);
}

/// Fixed-length invariant: the canonical form of any well-formed RPC
/// record serializes to exactly 80 bytes.
pub proof fn lemma_canonical_bytes_len(r: RpcHeaderView)
    requires
        r.wf(),
    ensures
        spec_to_canonical(r).spec_bytes().len() == 80,
{
    lemma_auto_spec_u32_to_from_le_bytes();
}

/// Reverses the bytes of a vector.
fn reverse_bytes(v: &Vec<u8>) -> (r: Vec<u8>)
    ensures
        r@ == v@.reverse(),
{
    let n = v.len();
    let mut r: Vec<u8> = Vec::new();
    let mut i: usize = 0;
    while i < n
        invariant
            n == v@.len(),
            i <= n,
            r@.len() == i,
            forall|k: int| 0 <= k < i ==> r@[k] == v@[n - 1 - k],
        decreases n - i,
    {
        r.push(v[n - 1 - i]);
        i += 1;
    }
    assert(r@ =~= v@.reverse());
    r
}

impl BitcoinHeader {
    /// The canonical 80-byte serialization of this header.
    pub fn to_bytes(&self) -> (r: Vec<u8>)
        ensures
            r@ == self@.spec_bytes(),
            self@.wf() ==> r@.len() == 80,
    {
        proof {
            lemma_auto_spec_u32_to_from_le_bytes();
        }
        let mut r: Vec<u8> = u32_to_le_bytes(self.version);
        let mut prev = slice_to_vec(self.hash_prev_block.as_slice());
        r.append(&mut prev);
        let mut merkle = slice_to_vec(self.hash_merkle_root.as_slice());
        r.append(&mut merkle);
        let mut ts = u32_to_le_bytes(self.timestamp);
        r.append(&mut ts);
        let mut bits = slice_to_vec(self.target_bits.as_slice());
        r.append(&mut bits);
        let mut nonce = u32_to_le_bytes(self.nonce);
        r.append(&mut nonce);
        r
    }

    /// A copy of this header with the same field values.
    pub fn clone_header(&self) -> (r: BitcoinHeader)
        ensures
            r@ == self@,
    {
        BitcoinHeader {
            version: self.version,
            hash_prev_block: slice_to_vec(self.hash_prev_block.as_slice()),
            hash_merkle_root: slice_to_vec(self.hash_merkle_root.as_slice()),
            timestamp: self.timestamp,
            target_bits: slice_to_vec(self.target_bits.as_slice()),
            nonce: self.nonce,
        }
    }
}

impl BlockHeaderRpc {
    /// A copy of this record with the same field values.
    pub fn clone_fields(&self) -> (r: BlockHeaderRpc)
        ensures
            r@ == self@,
    {
        BlockHeaderRpc {
            hash: slice_to_vec(self.hash.as_slice()),
            confirmations: self.confirmations,
            height: self.height,
            version: self.version,
            merkleroot: slice_to_vec(self.merkleroot.as_slice()),
            time: self.time,
            nonce: self.nonce,
            bits: slice_to_vec(self.bits.as_slice()),
            previousblockhash: slice_to_vec(self.previousblockhash.as_slice()),
        }
    }

    /// Converts this record to canonical byte order: reverses
    /// `previousblockhash`, `merkleroot` and `bits`, copies the rest.
    pub fn to_canonical(&self) -> (r: BitcoinHeader)
        ensures
            r@ == spec_to_canonical(self@),
    {
        BitcoinHeader {
            version: self.version,
            hash_prev_block: reverse_bytes(&self.previousblockhash),
            hash_merkle_root: reverse_bytes(&self.merkleroot),
            timestamp: self.time,
            target_bits: reverse_bytes(&self.bits),
            nonce: self.nonce,
        }
    }
}

/// `b` is the ASCII code of a hexadecimal digit.
pub open spec fn is_hex_digit(b: u8) -> bool {
    (48 <= b && b <= 57) || (97 <= b && b <= 102) || (65 <= b && b <= 70)
}

/// The value of the hexadecimal digit with ASCII code `b`.
pub open spec fn hex_val(b: u8) -> u8
    recommends
        is_hex_digit(b),
{
    if 48 <= b && b <= 57 {
        (b - 48) as u8
    } else if 97 <= b && b <= 102 {
        (b - 87) as u8
    } else {
        (b - 55) as u8
    }
}

/// Every byte of `s` is the ASCII code of a hexadecimal digit.
pub open spec fn all_hex(s: Seq<u8>) -> bool {
    forall|i: int| 0 <= i < s.len() ==> is_hex_digit(#[trigger] s[i])
}

/// `s` is a valid hex encoding: even length, hexadecimal digits only.
pub open spec fn valid_hex(s: Seq<u8>) -> bool {
    s.len() % 2 == 0 && all_hex(s)
}

/// The bytes encoded by the hex digit string `s` (two digits per byte,
/// high digit first).
pub open spec fn spec_hex_decode(s: Seq<u8>) -> Seq<u8>
    recommends
        valid_hex(s),
{
    Seq::new((s.len() / 2) as nat, |j: int| (hex_val(s[2 * j]) * 16 + hex_val(s[2 * j + 1])) as u8)
}

/// Whether `b` is the ASCII code of a hexadecimal digit.
fn is_hex_digit_byte(b: u8) -> (r: bool)
    ensures
        r == is_hex_digit(b),
{
    (48 <= b && b <= 57) || (97 <= b && b <= 102) || (65 <= b && b <= 70)
}

/// The value of the hexadecimal digit with ASCII code `b`.
fn hex_val_byte(b: u8) -> (r: u8)
    requires
        is_hex_digit(b),
    ensures
        r == hex_val(b),
{
    if 48 <= b && b <= 57 {
        b - 48
    } else if 97 <= b && b <= 102 {
        b - 87
    } else {
        b - 55
    }
}

/// Decodes a hex string to bytes. Returns `MalformedInputError` exactly
/// when the string has odd length or holds a non-hex character.
pub fn decode_hex(s: &str) -> (r: Result<Vec<u8>, MalformedInputError>)
    ensures
        match r {
            Ok(v) => valid_hex(s.spec_bytes()) && v@ == spec_hex_decode(s.spec_bytes()),
            Err(_) => !valid_hex(s.spec_bytes()),
        },
{
    let bytes = s.as_bytes();
    let n = bytes.len();
    if n % 2 != 0 {
        return Err(MalformedInputError);
    }
    let mut out: Vec<u8> = Vec::new();
    let mut i: usize = 0;
    while i < n
        invariant
            bytes@ == s.spec_bytes(),
            n == bytes@.len(),
            n % 2 == 0,
            i <= n,
            i % 2 == 0,
            out@.len() == i / 2,
            forall|k: int| 0 <= k < i ==> is_hex_digit(#[trigger] bytes@[k]),
            forall|j: int| 0 <= j < i / 2 ==>
                out@[j] == (hex_val(bytes@[2 * j]) * 16 + hex_val(bytes@[2 * j + 1])) as u8,
        decreases n - i,
    {
        let hi = bytes[i];
        let lo = bytes[i + 1];
        if !is_hex_digit_byte(hi) || !is_hex_digit_byte(lo) {
            return Err(MalformedInputError);
        }
        out.push(hex_val_byte(hi) * 16 + hex_val_byte(lo));
        i += 2;
    }
    assert(out@ =~= spec_hex_decode(s.spec_bytes()));
    Ok(out)
}

/// `s` encodes exactly `n` bytes of hex.
pub open spec fn valid_hex_field(s: Seq<u8>, n: nat) -> bool {
    valid_hex(s) && s.len() == 2 * n
}

impl BlockHeaderRpc {
    /// Builds a record from the fields of one RPC JSON object, decoding the
    /// hex-encoded byte fields. Returns `MalformedInputError` exactly when
    /// a byte field is not valid hex of its fixed length (hashes 32 bytes,
    /// `bits` 4 bytes).
    pub fn from_rpc_fields(
        hash_hex: &str,
        confirmations: u32,
        height: u32,
        version: u32,
        merkleroot_hex: &str,
        time: u32,
        nonce: u32,
        bits_hex: &str,
        previousblockhash_hex: &str,
    ) -> (r: Result<BlockHeaderRpc, MalformedInputError>)
        ensures
            match r {
                Ok(h) => {
                    &&& valid_hex_field(hash_hex.spec_bytes(), 32)
                    &&& valid_hex_field(merkleroot_hex.spec_bytes(), 32)
                    &&& valid_hex_field(bits_hex.spec_bytes(), 4)
                    &&& valid_hex_field(previousblockhash_hex.spec_bytes(), 32)
                    &&& h@.wf()
                    &&& h@.hash == spec_hex_decode(hash_hex.spec_bytes())
                    &&& h@.merkleroot == spec_hex_decode(merkleroot_hex.spec_bytes())
                    &&& h@.bits == spec_hex_decode(bits_hex.spec_bytes())
                    &&& h@.previousblockhash == spec_hex_decode(previousblockhash_hex.spec_bytes())
                    &&& h@.confirmations == confirmations
                    &&& h@.height == height
                    &&& h@.version == version
                    &&& h@.time == time
                    &&& h@.nonce == nonce
                },
                Err(_) => !{
                    &&& valid_hex_field(hash_hex.spec_bytes(), 32)
                    &&& valid_hex_field(merkleroot_hex.spec_bytes(), 32)
                    &&& valid_hex_field(bits_hex.spec_bytes(), 4)
                    &&& valid_hex_field(previousblockhash_hex.spec_bytes(), 32)
                },
            },
    {
        let hash = match decode_hex(hash_hex) {
            Ok(v) => v,
            Err(e) => {
                return Err(e);
            },
        };
        let merkleroot = match decode_hex(merkleroot_hex) {
            Ok(v) => v,
            Err(e) => {
                return Err(e);
            },
        };
        let bits = match decode_hex(bits_hex) {
            Ok(v) => v,
            Err(e) => {
                return Err(e);
            },
        };
        let previousblockhash = match decode_hex(previousblockhash_hex) {
            Ok(v) => v,
            Err(e) => {
                return Err(e);
            },
        };
        if hash.len() != 32 || merkleroot.len() != 32 || bits.len() != 4
            || previousblockhash.len() != 32 {
            return Err(MalformedInputError);
        }
        Ok(BlockHeaderRpc {
            hash,
            confirmations,
            height,
            version,
            merkleroot,
            time,
            nonce,
            bits,
            previousblockhash,
        })
    }
}

} // verus!
