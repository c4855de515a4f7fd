use bitcoin_fold::codec::{decode_hex, BitcoinHeader, BlockHeaderRpc};
use bitcoin_fold::commit::commitment_is_valid;
use bitcoin_fold::store::BlockReader;
use bitcoin_fold::verify::verify_chain;
use bitcoin_fold::{BlockReaderError, DuplicateHeightError, MalformedInputError};
use sha2::{Digest, Sha256};

fn hex_of(bytes: &[u8]) -> String {
    let mut s = String::new();
    for b in bytes {
        s.push_str(&format!("{:02x}", b));
    }
    s
}

fn double_sha256(bytes: &[u8]) -> Vec<u8> {
    Sha256::digest(Sha256::digest(bytes)).to_vec()
}

/// Builds a record whose RPC-order `previousblockhash` field is the
/// byte-reversed form of `prev_hash_canonical`.
fn make_record(height: u32, nonce: u32, prev_hash_canonical: &[u8]) -> BlockHeaderRpc {
    let mut prev_rpc = prev_hash_canonical.to_vec();
    prev_rpc.reverse();
    let hash = [0xaau8; 32];
    let merkleroot: Vec<u8> = (0..32u8).collect();
    let bits = [0x17u8, 0x03, 0x1a, 0xbc];
    BlockHeaderRpc::from_rpc_fields(
        &hex_of(&hash),
        6,
        height,
        0x2000_0000,
        &hex_of(&merkleroot),
        1_713_000_000 + height,
        nonce,
        &hex_of(&bits),
        &hex_of(&prev_rpc),
    )
    .expect("record fields are valid")
}

/// Three records at consecutive heights where each header's previous-hash
/// field holds the double-SHA-256 block hash of its predecessor.
fn linked_records() -> Vec<BlockHeaderRpc> {
    let genesis_prev = [0x11u8; 32];
    let r1 = make_record(838637, 3878033683, &genesis_prev);
    let h1 = double_sha256(&r1.to_canonical().to_bytes());
    let r2 = make_record(838638, 4255188596, &h1);
    let h2 = double_sha256(&r2.to_canonical().to_bytes());
    let r3 = make_record(838639, 777, &h2);
    vec![r1, r2, r3]
}

#[test]
fn read_block_header_in_rpc_format() {
    let reader = BlockReader::new_from_records(linked_records()).unwrap();
    let header_internal = reader.get_block_header(838637).unwrap();
    assert_eq!(header_internal.nonce, 3878033683);
}

#[test]
fn read_block_headers_verify_chain_hash() {
    let reader = BlockReader::new_from_records(linked_records()).unwrap();
    let headers = reader.get_block_headers().unwrap();
    let mut prev_hash = headers[0].1.hash_prev_block.clone();
    for (_height, header) in headers {
        assert_eq!(header.hash_prev_block, prev_hash);
        let header_bytes = header.to_bytes();
        prev_hash = double_sha256(&header_bytes);
    }
}

#[test]
fn round_trip_endianness() {
    let record = make_record(838637, 3878033683, &[0x42u8; 32]);
    let canonical = record.to_canonical();
    let mut prev = canonical.hash_prev_block.clone();
    let mut merkle = canonical.hash_merkle_root.clone();
    let mut bits = canonical.target_bits.clone();
    prev.reverse();
    merkle.reverse();
    bits.reverse();
    assert_eq!(prev, record.previousblockhash);
    assert_eq!(merkle, record.merkleroot);
    assert_eq!(bits, record.bits);
    assert_eq!(canonical.version, record.version);
    assert_eq!(canonical.timestamp, record.time);
    assert_eq!(canonical.nonce, record.nonce);
}

#[test]
fn canonical_bytes_have_fixed_length() {
    for record in linked_records() {
        assert_eq!(record.to_canonical().to_bytes().len(), 80);
    }
}

#[test]
fn canonical_byte_layout() {
    let header = BitcoinHeader {
        version: 0x0403_0201,
        hash_prev_block: vec![0x10u8; 32],
        hash_merkle_root: vec![0x20u8; 32],
        timestamp: 0x0807_0605,
        target_bits: vec![0x30u8, 0x31, 0x32, 0x33],
        nonce: 0x0c0b_0a09,
    };
    let bytes = header.to_bytes();
    assert_eq!(bytes.len(), 80);
    assert_eq!(&bytes[0..4], &[0x01, 0x02, 0x03, 0x04]);
    assert_eq!(&bytes[4..36], &[0x10u8; 32][..]);
    assert_eq!(&bytes[36..68], &[0x20u8; 32][..]);
    assert_eq!(&bytes[68..72], &[0x05, 0x06, 0x07, 0x08]);
    assert_eq!(&bytes[72..76], &[0x30, 0x31, 0x32, 0x33]);
    assert_eq!(&bytes[76..80], &[0x09, 0x0a, 0x0b, 0x0c]);
}

#[test]
fn chain_validity_positive() {
    let reader = BlockReader::new_from_records(linked_records()).unwrap();
    assert!(verify_chain(&reader).is_ok());
}

#[test]
fn chain_validity_negative_break_reported_downstream() {
    let mut records = linked_records();
    // Corrupt the nonce of height 838638: its own stored previous-hash
    // still matches, but its block hash no longer matches what 838639
    // carries, so the break is at 838639.
    records[1].nonce ^= 0x01;
    let reader = BlockReader::new_from_records(records).unwrap();
    let err = verify_chain(&reader).expect_err("chain must break");
    assert_eq!(err.height, 838639);
    assert_eq!(err.expected.len(), 32);
    assert_eq!(err.actual.len(), 32);
    assert_ne!(err.expected, err.actual);
}

#[test]
fn commitment_positive_and_negative() {
    let records = linked_records();
    let header_bytes = records[0].to_canonical().to_bytes();
    let claimed: Vec<u8> = header_bytes[4..36].to_vec();
    assert!(commitment_is_valid(&claimed, &header_bytes));
    for pos in 0..32 {
        let mut wrong = claimed.clone();
        wrong[pos] ^= 0x80;
        assert!(!commitment_is_valid(&wrong, &header_bytes));
    }
}

#[test]
fn commitment_matches_chain_digest() {
    let records = linked_records();
    // As the proving harness does: the claimed hash is the double SHA-256
    // of one header, checked against the embedded field of the next.
    let claimed = double_sha256(&records[1].to_canonical().to_bytes());
    let header_bytes = records[2].to_canonical().to_bytes();
    assert!(commitment_is_valid(&claimed, &header_bytes));
}

#[test]
fn store_ordering_ascending() {
    let base = linked_records();
    let reordered = vec![base[2].clone_fields(), base[0].clone_fields(), base[1].clone_fields()];
    let reader = BlockReader::new_from_records(reordered).unwrap();
    let headers = reader.iter_ascending();
    let heights: Vec<u32> = headers.iter().map(|p| p.0).collect();
    assert_eq!(heights, vec![838637, 838638, 838639]);
}

#[test]
fn duplicate_height_rejected() {
    let a = make_record(838637, 1, &[0x01u8; 32]);
    let b = make_record(838637, 2, &[0x02u8; 32]);
    let err = BlockReader::new_from_records(vec![a, b]).expect_err("duplicate heights");
    assert_eq!(err, DuplicateHeightError { height: 838637 });
}

#[test]
fn missing_height_not_found() {
    let reader = BlockReader::new_from_records(linked_records()).unwrap();
    let err = reader.get_block_header(1).expect_err("absent height");
    assert_eq!(err, BlockReaderError);
}

#[test]
fn decode_hex_exact_values() {
    assert_eq!(decode_hex("00ff10").unwrap(), vec![0x00, 0xff, 0x10]);
    assert_eq!(decode_hex("AbCd").unwrap(), vec![0xab, 0xcd]);
    assert_eq!(decode_hex("").unwrap(), Vec::<u8>::new());
}

#[test]
fn decode_hex_rejects_bad_input() {
    assert_eq!(decode_hex("0g").expect_err("non-hex digit"), MalformedInputError);
    assert_eq!(decode_hex("abc").expect_err("odd length"), MalformedInputError);
}

#[test]
fn record_fields_reject_wrong_lengths() {
    let ok = hex_of(&[0u8; 32]);
    let bits = hex_of(&[0u8; 4]);
    // A 31-byte hash field is malformed.
    let short = hex_of(&[0u8; 31]);
    let err = BlockHeaderRpc::from_rpc_fields(&short, 0, 1, 2, &ok, 3, 4, &bits, &ok)
        .expect_err("short hash");
    assert_eq!(err, MalformedInputError);
}

#[test]
fn into_internal_matches_to_canonical() {
    let records = linked_records();
    let reader = BlockReader::new_from_records(linked_records()).unwrap();
    let a = reader.into_internal(records[0].clone_fields());
    let b = records[0].to_canonical();
    assert_eq!(a.hash_prev_block, b.hash_prev_block);
    assert_eq!(a.hash_merkle_root, b.hash_merkle_root);
    assert_eq!(a.target_bits, b.target_bits);
    assert_eq!(a.version, b.version);
    assert_eq!(a.timestamp, b.timestamp);
    assert_eq!(a.nonce, b.nonce);
}
