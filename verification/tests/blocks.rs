use neonchain::blockchain::{Block, IntegrityViolation};
use sha2::{Digest, Sha256};

fn hex_upper(bytes: &[u8]) -> String {
    let mut s = String::new();
    for b in bytes {
        s.push_str(&format!("{:02X}", b));
    }
    s
}

fn expected_hash(preimage: &str) -> String {
    hex_upper(&Sha256::digest(preimage.as_bytes()))
}

#[test]
fn genesis_block_shape() {
    let g = Block::genesis();
    assert_eq!(g.index, 0);
    assert_eq!(g.previous_hash, None);
    assert_eq!(g.data, "Neon genesis!");
    assert_eq!(g.hash, Some(g.calculate_hash()));
    assert!(g.check_integrity(None).is_ok());
}

#[test]
fn genesis_payload_rejected() {
    let mut g = Block::genesis();
    g.data = "Not the sentinel".to_owned();
    g.set_hash();
    assert_eq!(g.check_integrity(None), Err(IntegrityViolation::InvalidGenesis));
}

#[test]
fn recomputed_hash_matches_stored_hash() {
    let g = Block::genesis();
    let next = g.generate_next("payload".to_owned());
    assert_eq!(g.hash, Some(g.calculate_hash()));
    assert_eq!(next.hash, Some(next.calculate_hash()));
}

#[test]
fn generated_block_links_to_predecessor() {
    let g = Block::genesis();
    let next = g.generate_next("payload".to_owned());
    assert_eq!(next.index, 1);
    assert_eq!(next.previous_hash, g.hash);
    assert_eq!(next.data, "payload");
    assert!(next.check_integrity(Some(&g)).is_ok());
}

#[test]
fn tampered_data_fails_with_invalid_hash() {
    let g = Block::genesis();
    let mut next = g.generate_next("payload".to_owned());
    next.data = "tampered".to_owned();
    assert_eq!(next.check_integrity(Some(&g)), Err(IntegrityViolation::InvalidHash));
}

#[test]
fn tampered_timestamp_fails_with_invalid_hash() {
    let g = Block::genesis();
    let mut next = g.generate_next("payload".to_owned());
    next.timestamp += 1;
    assert_eq!(next.check_integrity(Some(&g)), Err(IntegrityViolation::InvalidHash));
    let mut g2 = Block::genesis();
    g2.timestamp -= 1;
    assert_eq!(g2.check_integrity(None), Err(IntegrityViolation::InvalidHash));
}

#[test]
fn tampered_index_fails_with_invalid_index() {
    let g = Block::genesis();
    let mut next = g.generate_next("payload".to_owned());
    next.index += 1;
    assert_eq!(next.check_integrity(Some(&g)), Err(IntegrityViolation::InvalidIndex));
}

#[test]
fn tampered_previous_hash_fails_with_invalid_previous_hash() {
    let g = Block::genesis();
    let mut next = g.generate_next("payload".to_owned());
    next.previous_hash = Some("bogus".to_owned());
    assert_eq!(next.check_integrity(Some(&g)), Err(IntegrityViolation::InvalidPreviousHash));
}

#[test]
fn missing_stored_hash_fails_with_invalid_hash() {
    let g = Block::genesis();
    let mut next = g.generate_next("payload".to_owned());
    next.hash = None;
    assert_eq!(next.check_integrity(Some(&g)), Err(IntegrityViolation::InvalidHash));
}

#[test]
fn hash_known_answer() {
    let b = Block {
        index: 0,
        hash: None,
        previous_hash: None,
        timestamp: 0,
        data: "abc".to_owned(),
    };
    assert_eq!(b.calculate_hash(), expected_hash("0|-|0|abc"));
}

#[test]
fn hash_known_answer_multidigit_negative() {
    let b = Block {
        index: 123,
        hash: None,
        previous_hash: Some("AB".to_owned()),
        timestamp: -45,
        data: "x|y".to_owned(),
    };
    assert_eq!(b.calculate_hash(), expected_hash("123|AB|-45|x|y"));
}

#[test]
fn hash_ignores_stored_hash_field() {
    let mut b = Block {
        index: 7,
        hash: None,
        previous_hash: None,
        timestamp: 99,
        data: "data".to_owned(),
    };
    let before = b.calculate_hash();
    b.hash = Some("anything".to_owned());
    assert_eq!(b.calculate_hash(), before);
    assert_eq!(before.len(), 64);
}

#[test]
fn set_hash_stores_recomputed_hash() {
    let mut b = Block {
        index: 2,
        hash: None,
        previous_hash: Some("00".to_owned()),
        timestamp: 5,
        data: "z".to_owned(),
    };
    b.set_hash();
    assert_eq!(b.hash, Some(expected_hash("2|00|5|z")));
}
