use blockchain::block::Block;
use blockchain::decimal::{push_decimal, push_signed_decimal};
use blockchain::hashing::{digest_bytes, leading_zero_nibbles, to_hex};
use sha2::Digest;

fn decimal(n: u64) -> String {
    let mut out = Vec::new();
    push_decimal(&mut out, n);
    String::from_utf8(out).unwrap()
}

fn signed_decimal(n: i64) -> String {
    let mut out = Vec::new();
    push_signed_decimal(&mut out, n);
    String::from_utf8(out).unwrap()
}

#[test]
fn decimal_rendering_matches_format() {
    assert_eq!(decimal(0), "0");
    assert_eq!(decimal(7), "7");
    assert_eq!(decimal(10), "10");
    assert_eq!(decimal(1234567890), "1234567890");
    assert_eq!(decimal(u64::MAX), "18446744073709551615");
}

#[test]
fn signed_decimal_rendering_matches_format() {
    assert_eq!(signed_decimal(0), "0");
    assert_eq!(signed_decimal(42), "42");
    assert_eq!(signed_decimal(-42), "-42");
    assert_eq!(signed_decimal(i64::MIN), "-9223372036854775808");
    assert_eq!(signed_decimal(i64::MAX), "9223372036854775807");
}

#[test]
fn push_decimal_appends() {
    let mut out = b"x".to_vec();
    push_decimal(&mut out, 305);
    assert_eq!(out, b"x305".to_vec());
}

#[test]
fn hex_rendering() {
    assert_eq!(to_hex(&vec![]), "");
    assert_eq!(to_hex(&vec![0x00, 0xab, 0x0f, 0xf0, 0xff]), "00ab0ff0ff");
}

#[test]
fn sha256_known_answer() {
    let d = digest_bytes(&b"abc".to_vec());
    assert_eq!(d.len(), 32);
    assert_eq!(
        to_hex(&d),
        "ba7816bf8f01cfea414140de5dae2223b00361a396177a9cb410ff61f20015ad"
    );
    assert_eq!(
        to_hex(&digest_bytes(&Vec::new())),
        "e3b0c44298fc1c149afbf4c8996fb92427ae41e4649b934ca495991b7852b855"
    );
}

#[test]
fn leading_zero_digits() {
    let b = vec![0x00, 0x0f];
    assert!(leading_zero_nibbles(&b, 0));
    assert!(leading_zero_nibbles(&b, 3));
    assert!(!leading_zero_nibbles(&b, 4));
    assert!(!leading_zero_nibbles(&b, 5));
    assert!(!leading_zero_nibbles(&vec![0x10], 1));
    assert!(leading_zero_nibbles(&vec![0x01], 1));
}

fn block(index: u64, timestamp: i64, data: &str, prev: &str, nonce: u64) -> Block {
    Block {
        index,
        timestamp,
        data: data.to_string(),
        previous_hash: prev.to_string(),
        hash: String::new(),
        nonce,
    }
}

#[test]
fn calculate_hash_covers_fields_in_order() {
    let b = block(3, -17, "héllo", "00ab", 99);
    let expected = format!("{:x}", sha2::Sha256::digest("3-17héllo00ab99".as_bytes()));
    assert_eq!(b.calculate_hash(), expected);
    assert_eq!(b.calculate_hash().len(), 64);
}

#[test]
fn calculate_hash_of_genesis_fields() {
    let b = block(0, 1700000000, "Genesis Block", "0", 12);
    let expected = format!(
        "{:x}",
        sha2::Sha256::digest(b"01700000000Genesis Block012")
    );
    assert_eq!(b.calculate_hash(), expected);
}

#[test]
fn mine_at_difficulty_zero_keeps_current_nonce() {
    let mut b = block(1, 5, "p", "q", 77);
    assert!(b.mine(0));
    assert_eq!(b.nonce, 77);
    assert_eq!(b.hash, b.calculate_hash());
}

#[test]
fn mine_finds_least_nonce() {
    let mut b = block(2, 1700000000, "payload", "abc", 0);
    assert!(b.mine(2));
    assert!(b.hash.starts_with("00"));
    assert_eq!(b.hash, b.calculate_hash());
    for n in 0..b.nonce {
        let probe = block(2, 1700000000, "payload", "abc", n);
        assert!(!probe.calculate_hash().starts_with("00"));
    }
}

#[test]
fn mine_keeps_other_fields() {
    let mut b = block(9, 123, "data", "prev", 5);
    assert!(b.mine(1));
    assert_eq!(b.index, 9);
    assert_eq!(b.timestamp, 123);
    assert_eq!(b.data, "data");
    assert_eq!(b.previous_hash, "prev");
}

#[test]
fn difficulty_beyond_digest_length_cannot_seal() {
    let mut b = block(1, 1, "x", "y", 0);
    assert!(!b.mine(65));
    assert_eq!(b.hash, b.calculate_hash());
    assert!(Block::new(1, "x".to_string(), "y".to_string(), 1, 100).is_none());
}

#[test]
fn sealed_block_has_given_fields() {
    let b = Block::new(4, "load".to_string(), "prev".to_string(), 99, 2).unwrap();
    assert_eq!(b.index, 4);
    assert_eq!(b.timestamp, 99);
    assert_eq!(b.data, "load");
    assert_eq!(b.previous_hash, "prev");
    assert!(b.hash.starts_with("00"));
    assert_eq!(b.hash, b.calculate_hash());
}


#[test]
fn mine_searches_upward_from_current_nonce() {
    let mut from_zero = block(2, 1700000000, "payload", "abc", 0);
    assert!(from_zero.mine(1));
    let start = from_zero.nonce + 1;
    let mut b = block(2, 1700000000, "payload", "abc", start);
    assert!(b.mine(1));
    assert!(b.nonce >= start);
    assert!(b.hash.starts_with('0'));
    for n in start..b.nonce {
        let probe = block(2, 1700000000, "payload", "abc", n);
        assert!(!probe.calculate_hash().starts_with('0'));
    }
}

#[test]
fn mining_a_sealed_block_again_changes_nothing() {
    let mut b = Block::new(3, "again".to_string(), "prev".to_string(), 42, 2).unwrap();
    let (nonce, hash) = (b.nonce, b.hash.clone());
    assert!(b.mine(2));
    assert_eq!(b.nonce, nonce);
    assert_eq!(b.hash, hash);
}

#[test]
fn calculated_hash_is_lowercase_hex_of_64_digits() {
    let h = block(0, 0, "", "", 0).calculate_hash();
    assert_eq!(h.len(), 64);
    assert!(h.chars().all(|c| c.is_ascii_digit() || ('a'..='f').contains(&c)));
}
