use neonchain::blockchain::{Block, Blockchain, IntegrityViolation};

fn chain_of(n: usize) -> Blockchain {
    let mut ledger = Blockchain::new();
    for k in 1..n {
        ledger.mint_next_block(format!("payload {}", k));
    }
    ledger
}

#[test]
fn new_ledger_holds_only_genesis() {
    let ledger = Blockchain::new();
    assert_eq!(ledger.blocks.len(), 1);
    assert_eq!(ledger.blocks[0].index, 0);
    assert_eq!(ledger.blocks[0].data, "Neon genesis!");
    assert!(Blockchain::check_integrity(&ledger.blocks).is_ok());
}

#[test]
fn chain_of_n_passes_validation() {
    for n in 1..=6 {
        let ledger = chain_of(n);
        assert_eq!(ledger.blocks.len(), n);
        assert!(Blockchain::check_integrity(&ledger.blocks).is_ok());
        for (pos, block) in ledger.blocks.iter().enumerate() {
            assert_eq!(block.index, pos);
        }
    }
}

#[test]
fn validation_is_idempotent() {
    let ledger = chain_of(4);
    let first = Blockchain::check_integrity(&ledger.blocks);
    for _ in 0..5 {
        assert_eq!(Blockchain::check_integrity(&ledger.blocks), first);
    }
    assert_eq!(first, Ok(()));
}

#[test]
fn tampered_previous_hash_reported_at_its_position() {
    let ledger = chain_of(4);
    let mut blocks = ledger.blocks.clone();
    blocks[2].previous_hash = Some("bogus".to_owned());
    assert_eq!(
        Blockchain::check_integrity(&blocks),
        Err((2, IntegrityViolation::InvalidPreviousHash))
    );
}

#[test]
fn removed_block_leaves_an_index_gap() {
    let ledger = chain_of(5);
    let mut blocks = ledger.blocks.clone();
    blocks.remove(2);
    assert_eq!(Blockchain::check_integrity(&blocks), Err((2, IntegrityViolation::InvalidIndex)));
}

#[test]
fn first_violation_wins() {
    let ledger = chain_of(5);
    let mut blocks = ledger.blocks.clone();
    blocks[1].previous_hash = Some("bogus".to_owned());
    blocks[3].data = "tampered".to_owned();
    assert_eq!(
        Blockchain::check_integrity(&blocks),
        Err((1, IntegrityViolation::InvalidPreviousHash))
    );
}

#[test]
fn replace_accepts_longer_valid_candidate() {
    let mut current = Blockchain::new();
    let candidate = chain_of(3);
    assert_eq!(current.replace_chain(&candidate.blocks), Ok(()));
    assert_eq!(current.blocks.len(), 3);
    for (ours, theirs) in current.blocks.iter().zip(candidate.blocks.iter()) {
        assert_eq!(ours.hash, theirs.hash);
        assert_eq!(ours.data, theirs.data);
    }
}

#[test]
fn replace_rejects_equal_or_shorter_candidate() {
    let mut current = chain_of(3);
    let same_length = chain_of(3);
    let shorter = chain_of(2);
    assert_eq!(current.replace_chain(&same_length.blocks), Err(()));
    assert_eq!(current.replace_chain(&shorter.blocks), Err(()));
    assert_eq!(current.blocks.len(), 3);
}

#[test]
fn replace_rejects_longer_invalid_candidate() {
    let mut current = Blockchain::new();
    let tampered = {
        let mut blocks = chain_of(4).blocks;
        blocks[3].data = "tampered".to_owned();
        blocks
    };
    assert_eq!(current.replace_chain(&tampered), Err(()));
    assert_eq!(current.blocks.len(), 1);
    assert_eq!(current.blocks[0].data, "Neon genesis!");
}

#[test]
fn empty_candidate_is_vacuously_valid_but_never_adopted() {
    let empty: Vec<Block> = vec![];
    assert_eq!(Blockchain::check_integrity(&empty), Ok(()));
    let mut current = Blockchain::new();
    assert_eq!(current.replace_chain(&empty), Err(()));
    assert_eq!(current.blocks.len(), 1);
}

#[test]
fn mint_and_replace_scenario() {
    let mut ledger = Blockchain::new();
    let genesis_hash = ledger.blocks[0].calculate_hash();
    let minted = ledger.mint_next_block("A".to_owned());
    assert_eq!(minted.index, 1);
    assert_eq!(minted.data, "A");
    assert_eq!(minted.previous_hash, Some(genesis_hash));
    assert_eq!(ledger.blocks.len(), 2);
    assert!(Blockchain::check_integrity(&ledger.blocks).is_ok());

    let two_blocks = ledger.blocks.clone();
    let mut fresh = Blockchain::new();
    let one_block = fresh.blocks.clone();
    assert_eq!(fresh.replace_chain(&two_blocks), Ok(()));
    assert_eq!(fresh.blocks.len(), 2);
    assert_eq!(fresh.replace_chain(&one_block), Err(()));
    assert_eq!(fresh.blocks.len(), 2);
}
