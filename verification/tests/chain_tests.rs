use pow_chain::block::Block;
use pow_chain::chain::{AppendError, Chain};
use pow_chain::difficulty::DifficultyTarget;

fn zero32() -> [u8; 32] {
    [0u8; 32]
}

/// A chain at difficulty "first byte zero" holding a genesis block.
fn chain_with_genesis() -> Chain {
    let difficulty = DifficultyTarget::new(1);
    let mut chain = Chain::new(difficulty);
    let genesis = Block::mine(0, b"genesis".to_vec(), zero32(), difficulty)
        .expect("a one-zero-byte target is minable");
    assert_eq!(chain.append(genesis), Ok(()));
    chain
}

/// A block mined at difficulty zero whose hash does NOT have a leading zero
/// byte; found by varying the payload, so the search is short and certain.
fn under_difficulty_block(index: u64, previous_hash: [u8; 32]) -> Block {
    let none = DifficultyTarget::new(0);
    let mut salt: u8 = 0;
    loop {
        let block = Block::mine(index, vec![b'u', salt], previous_hash, none)
            .expect("an accept-everything target is minable");
        if block.hash[0] != 0 {
            return block;
        }
        salt = salt.checked_add(1).expect("a payload with a nonzero leading hash byte exists");
    }
}

#[test]
fn empty_chain_has_no_tip() {
    let chain = Chain::new(DifficultyTarget::new(1));
    assert_eq!(chain.len(), 0);
    assert!(chain.tip().is_none());
    assert!(chain.validate().is_ok());
}

#[test]
fn chain_links_every_block_to_its_predecessor() {
    let mut chain = chain_with_genesis();
    let difficulty = chain.difficulty();
    let tip_hash = chain.tip().expect("genesis present").hash;
    let b1 = Block::mine(1, b"first".to_vec(), tip_hash, difficulty).expect("minable");
    assert_eq!(chain.append(b1), Ok(()));
    let tip_hash = chain.tip().expect("tip present").hash;
    let b2 = Block::mine(2, b"second".to_vec(), tip_hash, difficulty).expect("minable");
    assert_eq!(chain.append(b2), Ok(()));

    assert_eq!(chain.len(), 3);
    assert_eq!(chain.get(0).previous_hash, zero32());
    assert_eq!(chain.get(1).previous_hash, chain.get(0).hash);
    assert_eq!(chain.get(2).previous_hash, chain.get(1).hash);
    assert_eq!(chain.get(0).index, 0);
    assert_eq!(chain.get(1).index, 1);
    assert_eq!(chain.get(2).index, 2);
    assert!(chain.validate().is_ok());
}

#[test]
fn append_rejects_bad_linkage_and_leaves_chain_unchanged() {
    let mut chain = chain_with_genesis();
    let difficulty = chain.difficulty();
    // a block with valid proof-of-work but linked to the wrong hash
    let stranger = Block::mine(1, b"stranger".to_vec(), [0xabu8; 32], difficulty)
        .expect("minable");
    let len_before = chain.len();
    assert_eq!(chain.append(stranger), Err(AppendError::BadLinkage));
    assert_eq!(chain.len(), len_before);
    assert!(chain.validate().is_ok());
}

#[test]
fn append_rejects_under_difficulty_block() {
    let mut chain = chain_with_genesis();
    let tip_hash = chain.tip().expect("genesis present").hash;
    let weak = under_difficulty_block(1, tip_hash);
    let len_before = chain.len();
    assert_eq!(chain.append(weak), Err(AppendError::BelowDifficulty));
    assert_eq!(chain.len(), len_before);
}

#[test]
fn append_rejects_bad_index() {
    let mut chain = chain_with_genesis();
    let difficulty = chain.difficulty();
    let tip_hash = chain.tip().expect("genesis present").hash;
    let skipped = Block::mine(5, b"too far".to_vec(), tip_hash, difficulty).expect("minable");
    assert_eq!(chain.append(skipped), Err(AppendError::BadIndex));
    assert_eq!(chain.len(), 1);
}

#[test]
fn append_rejects_hash_mismatch() {
    let mut chain = chain_with_genesis();
    let difficulty = chain.difficulty();
    let tip_hash = chain.tip().expect("genesis present").hash;
    let mut forged = Block::mine(1, b"forged".to_vec(), tip_hash, difficulty).expect("minable");
    // tamper with a trailing hash byte: the difficulty check still passes,
    // but recomputing the commitment exposes the forgery
    forged.hash[31] ^= 0x01;
    assert_eq!(chain.append(forged), Err(AppendError::HashMismatch));
    assert_eq!(chain.len(), 1);
}

#[test]
fn appending_the_same_block_twice_fails() {
    let mut chain = chain_with_genesis();
    let difficulty = chain.difficulty();
    let tip_hash = chain.tip().expect("genesis present").hash;
    let a = Block::mine(1, b"block a".to_vec(), tip_hash, difficulty).expect("minable");
    let a_again = a.clone();
    assert_eq!(chain.append(a), Ok(()));
    assert_eq!(chain.len(), 2);
    // the index/previous_hash check makes a re-append fail
    assert_eq!(chain.append(a_again), Err(AppendError::BadIndex));
    assert_eq!(chain.len(), 2);
}

#[test]
fn validate_accepts_a_rebuilt_valid_chain() {
    let mut chain = chain_with_genesis();
    let difficulty = chain.difficulty();
    let tip_hash = chain.tip().expect("genesis present").hash;
    let b1 = Block::mine(1, b"next".to_vec(), tip_hash, difficulty).expect("minable");
    assert_eq!(chain.append(b1), Ok(()));

    let blocks = vec![chain.get(0).clone(), chain.get(1).clone()];
    let rebuilt = Chain::from_blocks(blocks, difficulty);
    assert!(rebuilt.validate().is_ok());
}

#[test]
fn validate_reports_the_first_violation_with_its_index() {
    let chain = chain_with_genesis();
    let difficulty = chain.difficulty();
    let tip_hash = chain.tip().expect("genesis present").hash;
    let b1 = Block::mine(1, b"next".to_vec(), tip_hash, difficulty).expect("minable");

    // wrong index on the second block
    let mut wrong_index = b1.clone();
    wrong_index.index = 7;
    let tampered = Chain::from_blocks(vec![chain.get(0).clone(), wrong_index], difficulty);
    let err = tampered.validate().expect_err("index 7 at position 1 is invalid");
    assert_eq!(err.index, 1);
    assert_eq!(err.kind, AppendError::BadIndex);

    // genesis that does not link to zero bytes
    let mut wrong_genesis = chain.get(0).clone();
    wrong_genesis.previous_hash = [1u8; 32];
    let tampered = Chain::from_blocks(vec![wrong_genesis], difficulty);
    let err = tampered.validate().expect_err("a genesis must link to zero bytes");
    assert_eq!(err.index, 0);
    assert_eq!(err.kind, AppendError::BadLinkage);

    // stored hash that is not the recomputed commitment
    let mut forged = chain.get(0).clone();
    forged.hash[31] ^= 0x01;
    let tampered = Chain::from_blocks(vec![forged], difficulty);
    let err = tampered.validate().expect_err("a forged hash must be caught");
    assert_eq!(err.index, 0);
    assert_eq!(err.kind, AppendError::HashMismatch);

    // a block below the difficulty target
    let weak = under_difficulty_block(0, zero32());
    let tampered = Chain::from_blocks(vec![weak], DifficultyTarget::new(1));
    let err = tampered.validate().expect_err("a weak hash must be caught");
    assert_eq!(err.index, 0);
    assert_eq!(err.kind, AppendError::BelowDifficulty);
}
