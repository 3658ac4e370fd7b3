use simple_blockchain::block::Block;
use simple_blockchain::chain::Blockchain;
use simple_blockchain::encoding::{push_be_u128, push_be_u64};

fn is_lower_hex(s: &str) -> bool {
    s.len() == 64 && s.chars().all(|c| c.is_ascii_digit() || ('a'..='f').contains(&c))
}

#[test]
fn test_block_creation() {
    let block = Block::new(0, String::from("0"), String::from("Genesis Block"));
    assert_eq!(block.index, 0);
    assert_eq!(block.previous_hash, "0");
    assert_eq!(block.data, "Genesis Block");
}

#[test]
fn test_blockchain_creation() {
    let blockchain = Blockchain::new();
    assert_eq!(blockchain.chain.len(), 1);
}

#[test]
fn test_blockchain_validity() {
    let mut blockchain = Blockchain::new();
    blockchain.add_block("First block".to_string());
    blockchain.add_block("Second block".to_string());
    assert!(blockchain.is_valid());
}

#[test]
fn genesis_record_fields_and_commitment() {
    let chain = Blockchain::new();
    assert_eq!(chain.chain.len(), 1);
    let g = &chain.chain[0];
    assert_eq!(g.index, 0);
    assert_eq!(g.previous_hash, "0");
    assert_eq!(g.data, "Genesis Block");
    assert_eq!(g.hash, Block::calculate_hash(0, g.timestamp, "0", "Genesis Block"));
    assert!(chain.is_valid());
}

#[test]
fn append_grows_by_one_and_links() {
    let mut chain = Blockchain::new();
    for n in 1..6u64 {
        let before = chain.chain.len();
        let tail_index = chain.chain[before - 1].index;
        let tail_hash = chain.chain[before - 1].hash.clone();
        chain.add_block(format!("payload {}", n));
        assert_eq!(chain.chain.len(), before + 1);
        let tail = &chain.chain[before];
        assert_eq!(tail.index, tail_index + 1);
        assert_eq!(tail.previous_hash, tail_hash);
        assert_eq!(tail.data, format!("payload {}", n));
    }
}

#[test]
fn every_record_links_and_certifies_itself() {
    let mut chain = Blockchain::new();
    chain.add_block("a".to_string());
    chain.add_block(String::new());
    chain.add_block("ünïcödé".to_string());
    for (i, b) in chain.chain.iter().enumerate() {
        assert_eq!(b.index, i as u64);
        assert_eq!(b.hash, Block::calculate_hash(b.index, b.timestamp, &b.previous_hash, &b.data));
        assert!(is_lower_hex(&b.hash));
        if i > 0 {
            assert_eq!(b.previous_hash, chain.chain[i - 1].hash);
        }
    }
    assert!(chain.is_valid());
}

#[test]
fn concrete_scenario_then_payload_tampering() {
    let mut chain = Blockchain::new();
    chain.add_block("First block after genesis".to_string());
    chain.add_block("Second block".to_string());
    chain.add_block("Third block".to_string());
    assert_eq!(chain.chain.len(), 4);
    let indices: Vec<u64> = chain.chain.iter().map(|b| b.index).collect();
    assert_eq!(indices, vec![0, 1, 2, 3]);
    assert!(chain.is_valid());
    chain.chain[2].data = "tampered".to_string();
    assert!(!chain.is_valid());
}

#[test]
fn tampered_previous_commitment_is_detected() {
    let mut chain = Blockchain::new();
    chain.add_block("one".to_string());
    chain.add_block("two".to_string());
    chain.chain[1].previous_hash = "0".to_string();
    assert!(!chain.is_valid());
}

#[test]
fn tampered_commitment_is_detected() {
    let mut chain = Blockchain::new();
    chain.add_block("one".to_string());
    chain.chain[1].hash = chain.chain[0].hash.clone();
    assert!(!chain.is_valid());
}

#[test]
fn genesis_record_is_not_rechecked() {
    let mut chain = Blockchain::new();
    chain.add_block("one".to_string());
    chain.chain[0].data = "edited".to_string();
    assert!(chain.is_valid());
}

#[test]
fn empty_chain_is_valid() {
    let chain = Blockchain { chain: Vec::new() };
    assert!(chain.is_valid());
}

#[test]
fn hash_known_values() {
    assert_eq!(
        Block::calculate_hash(0, 0, "0", "Genesis Block"),
        "c7e2f3c5b2f927b2c6ea93e84f57c24b69d77917116bbe5204cd52d8ba3c0bd0"
    );
    assert_eq!(
        Block::calculate_hash(1, 1700000000000, "abc", "First block"),
        "f2e7588b0328baa7a6f754a0cc2a354289bcefff338a1da6fcd6e55c46bc7db0"
    );
    assert_eq!(
        Block::calculate_hash(0, 0, "", ""),
        "9d908ecfb6b256def8b49a7c504e6c889c4b0e41fe6ce3e01863dd7b61a20aa0"
    );
}

#[test]
fn hash_is_deterministic_and_sensitive() {
    let h = Block::calculate_hash(3, 42, "prev", "data");
    assert_eq!(h, Block::calculate_hash(3, 42, "prev", "data"));
    assert_ne!(h, Block::calculate_hash(4, 42, "prev", "data"));
    assert_ne!(h, Block::calculate_hash(3, 43, "prev", "data"));
    assert_ne!(h, Block::calculate_hash(3, 42, "prev2", "data"));
    assert_ne!(h, Block::calculate_hash(3, 42, "prev", "data2"));
}

#[test]
fn record_with_given_timestamp() {
    let b = Block::with_timestamp(1, 1700000000000, "abc".to_string(), "First block".to_string());
    assert_eq!(b.index, 1);
    assert_eq!(b.timestamp, 1700000000000);
    assert_eq!(b.previous_hash, "abc");
    assert_eq!(b.data, "First block");
    assert_eq!(b.hash, "f2e7588b0328baa7a6f754a0cc2a354289bcefff338a1da6fcd6e55c46bc7db0");
}

#[test]
fn big_endian_bytes() {
    let mut buf: Vec<u8> = vec![9];
    push_be_u64(&mut buf, 0x0102030405060708);
    assert_eq!(buf, vec![9, 1, 2, 3, 4, 5, 6, 7, 8]);
    let mut wide: Vec<u8> = Vec::new();
    push_be_u128(&mut wide, 0x0102);
    let mut expected = vec![0u8; 14];
    expected.extend_from_slice(&[1, 2]);
    assert_eq!(wide, expected);
}

