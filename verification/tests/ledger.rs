use chain_node::block::{genesis_block, Transaction};
use chain_node::ledger::{LedgerError, LedgerState};
use chain_node::ledger_tree::LedgerTree;

const ADDRESS: u64 = 0x5eed_add1;

fn new_ledger() -> LedgerState {
    LedgerState::open()
}

#[test]
fn test_genesis() {
    // Initialize a new ledger.
    let ledger = new_ledger();

    // Retrieve the genesis block.
    let genesis = genesis_block();

    // Initialize a new ledger tree.
    let mut ledger_tree = LedgerTree::new();
    ledger_tree.add(genesis.hash());

    // Ensure the ledger is at the genesis block.
    assert_eq!(0, ledger.latest_block_height());
    assert_eq!(genesis.height(), ledger.latest_block_height());
    assert_eq!(genesis.hash(), ledger.latest_block_hash());
    assert_eq!(genesis.timestamp(), ledger.latest_block_timestamp());
    assert_eq!(genesis.difficulty_target(), ledger.latest_block_difficulty_target());
    assert_eq!(genesis, ledger.latest_block());
    assert_eq!(
        Some((genesis.hash(), None)),
        ledger.latest_block_locators().get(genesis.height())
    );
    assert_eq!(ledger_tree.root(), ledger.latest_ledger_root());
}

#[test]
fn test_add_next_block() {
    // Initialize a new ledger.
    let mut ledger = new_ledger();
    assert_eq!(0, ledger.latest_block_height());

    // Initialize a new ledger tree.
    let mut ledger_tree = LedgerTree::new();
    ledger_tree.add(genesis_block().hash());

    // Mine the next block.
    let block = ledger.mine_next_block(ADDRESS, &Vec::new(), 1).expect("Failed to mine");
    ledger.add_next_block(&block).expect("Failed to add next block to ledger");
    ledger_tree.add(block.hash());

    // Ensure the ledger is at block 1.
    assert_eq!(1, ledger.latest_block_height());
    assert_eq!(block.height(), ledger.latest_block_height());
    assert_eq!(block.hash(), ledger.latest_block_hash());
    assert_eq!(block.timestamp(), ledger.latest_block_timestamp());
    assert_eq!(block.difficulty_target(), ledger.latest_block_difficulty_target());
    assert_eq!(block, ledger.latest_block());
    assert_eq!(ledger_tree.root(), ledger.latest_ledger_root());

    // Retrieve the genesis block.
    let genesis = genesis_block();

    // Ensure the block locators are correct.
    let block_locators = ledger.latest_block_locators();
    assert_eq!(2, block_locators.len());
    assert_eq!(
        Some((block.hash(), Some(block.header()))),
        block_locators.get(block.height())
    );
    assert_eq!(Some((genesis.hash(), None)), block_locators.get(genesis.height()));
}

#[test]
fn test_remove_last_block() {
    // Initialize a new ledger.
    let mut ledger = new_ledger();
    assert_eq!(0, ledger.latest_block_height());

    // Initialize a new ledger tree.
    let mut ledger_tree = LedgerTree::new();
    ledger_tree.add(genesis_block().hash());

    // Mine the next block.
    let block = ledger.mine_next_block(ADDRESS, &Vec::new(), 1).expect("Failed to mine");
    ledger.add_next_block(&block).expect("Failed to add next block to ledger");
    assert_eq!(1, ledger.latest_block_height());

    // Remove the last block.
    let blocks = ledger
        .revert_to_block_height(ledger.latest_block_height() - 1)
        .expect("Failed to remove the last block");
    assert_eq!(vec![block], blocks);

    // Retrieve the genesis block.
    let genesis = genesis_block();

    // Ensure the ledger is back at the genesis block.
    assert_eq!(0, ledger.latest_block_height());
    assert_eq!(genesis.height(), ledger.latest_block_height());
    assert_eq!(genesis.hash(), ledger.latest_block_hash());
    assert_eq!(genesis.timestamp(), ledger.latest_block_timestamp());
    assert_eq!(genesis.difficulty_target(), ledger.latest_block_difficulty_target());
    assert_eq!(genesis, ledger.latest_block());
    assert_eq!(
        Some((genesis.hash(), None)),
        ledger.latest_block_locators().get(genesis.height())
    );
    assert_eq!(ledger_tree.root(), ledger.latest_ledger_root());
}

#[test]
fn test_remove_last_2_blocks() {
    // Initialize a new ledger.
    let mut ledger = new_ledger();
    assert_eq!(0, ledger.latest_block_height());

    // Initialize a new ledger tree.
    let mut ledger_tree = LedgerTree::new();
    ledger_tree.add(genesis_block().hash());

    // Mine the next block.
    let block_1 = ledger.mine_next_block(ADDRESS, &Vec::new(), 1).expect("Failed to mine");
    ledger.add_next_block(&block_1).expect("Failed to add next block to ledger");
    assert_eq!(1, ledger.latest_block_height());

    // Mine the next block.
    let block_2 = ledger.mine_next_block(ADDRESS, &Vec::new(), 2).expect("Failed to mine");
    ledger.add_next_block(&block_2).expect("Failed to add next block to ledger");
    assert_eq!(2, ledger.latest_block_height());

    // Remove the last two blocks.
    let blocks = ledger
        .revert_to_block_height(ledger.latest_block_height() - 2)
        .expect("Failed to remove the last two blocks");
    assert_eq!(vec![block_1, block_2], blocks);

    // Retrieve the genesis block.
    let genesis = genesis_block();

    // Ensure the ledger is back at the genesis block.
    assert_eq!(0, ledger.latest_block_height());
    assert_eq!(genesis.height(), ledger.latest_block_height());
    assert_eq!(genesis.hash(), ledger.latest_block_hash());
    assert_eq!(genesis.timestamp(), ledger.latest_block_timestamp());
    assert_eq!(genesis.difficulty_target(), ledger.latest_block_difficulty_target());
    assert_eq!(genesis, ledger.latest_block());
    assert_eq!(
        Some((genesis.hash(), None)),
        ledger.latest_block_locators().get(genesis.height())
    );
    assert_eq!(ledger_tree.root(), ledger.latest_ledger_root());
}

#[test]
fn test_get_block_locators() {
    // Initialize a new ledger.
    let mut ledger = new_ledger();
    assert_eq!(0, ledger.latest_block_height());

    // Mine the next block.
    let block_1 = ledger.mine_next_block(ADDRESS, &Vec::new(), 1).expect("Failed to mine");
    ledger.add_next_block(&block_1).expect("Failed to add next block to ledger");
    assert_eq!(1, ledger.latest_block_height());

    // Check the block locators.
    let block_locators = ledger
        .get_block_locators(ledger.latest_block_height())
        .expect("Failed to get block locators");
    assert!(ledger.check_block_locators(&block_locators));

    // Mine the next block.
    let block_2 = ledger.mine_next_block(ADDRESS, &Vec::new(), 2).expect("Failed to mine");
    ledger.add_next_block(&block_2).expect("Failed to add next block to ledger");
    assert_eq!(2, ledger.latest_block_height());

    // Check the block locators.
    let block_locators = ledger
        .get_block_locators(ledger.latest_block_height())
        .expect("Failed to get block locators");
    assert!(ledger.check_block_locators(&block_locators));

    // Mine the next block.
    let block_3 = ledger.mine_next_block(ADDRESS, &Vec::new(), 3).expect("Failed to mine");
    ledger.add_next_block(&block_3).expect("Failed to add next block to ledger");
    assert_eq!(3, ledger.latest_block_height());

    // Check the block locators.
    let block_locators = ledger
        .get_block_locators(ledger.latest_block_height())
        .expect("Failed to get block locators");
    assert!(ledger.check_block_locators(&block_locators));
}

#[test]
fn test_genesis_locator_map_is_singleton() {
    let ledger = new_ledger();
    let locators = ledger.latest_block_locators();
    assert_eq!(1, locators.len());
    assert_eq!(Some((genesis_block().hash(), None)), locators.get(0));
    assert_eq!(None, locators.get(1));
}

#[test]
fn test_locator_mutation_is_rejected() {
    let mut ledger = new_ledger();
    for t in 1..4 {
        let block = ledger.mine_next_block(ADDRESS, &Vec::new(), t).expect("Failed to mine");
        ledger.add_next_block(&block).expect("Failed to add next block to ledger");
    }
    let locators = ledger.get_block_locators(3).expect("Failed to get block locators");
    assert!(ledger.check_block_locators(&locators));

    // Mutating any single hash entry must be rejected.
    for i in 0..locators.entries.len() {
        let mut tampered = locators.clone();
        tampered.entries[i].block_hash ^= 1;
        assert!(!ledger.check_block_locators(&tampered));
    }

    // Mutating any single header entry must be rejected, both when the
    // claimed height changes and when only the content does.
    for i in 0..locators.entries.len() {
        let mut tampered = locators.clone();
        if let Some(header) = &mut tampered.entries[i].header {
            header.height += 1;
            assert!(!ledger.check_block_locators(&tampered));
        }
    }
    for i in 0..locators.entries.len() {
        let mut tampered = locators.clone();
        if let Some(header) = &mut tampered.entries[i].header {
            // Still a valid header at the claimed height, but not the
            // canonical one.
            header.nonce += 1;
            assert!(!ledger.check_block_locators(&tampered));
        }
    }
}

#[test]
fn test_add_next_block_rejections() {
    let mut ledger = new_ledger();
    let block_1 = ledger.mine_next_block(ADDRESS, &Vec::new(), 1).expect("Failed to mine");
    ledger.add_next_block(&block_1).expect("Failed to add next block to ledger");

    // A block claiming the wrong height.
    let stale = block_1.clone();
    assert_eq!(
        Err(LedgerError::IncorrectHeight { expected: 2, found: 1 }),
        ledger.add_next_block(&stale)
    );

    // A block claiming the wrong parent.
    let mut orphan = ledger.mine_next_block(ADDRESS, &Vec::new(), 2).expect("Failed to mine");
    let bad_parent = orphan.previous_block_hash ^ 1;
    orphan.previous_block_hash = bad_parent;
    assert_eq!(
        Err(LedgerError::IncorrectPreviousBlockHash {
            expected: ledger.latest_block_hash(),
            found: bad_parent,
        }),
        ledger.add_next_block(&orphan)
    );

    // A block whose timestamp does not advance.
    let mut sluggish = ledger.mine_next_block(ADDRESS, &Vec::new(), 2).expect("Failed to mine");
    sluggish.header.timestamp = 1;
    assert_eq!(Err(LedgerError::InvalidBlock), ledger.add_next_block(&sluggish));

    // The ledger is unchanged by the rejections.
    assert_eq!(1, ledger.latest_block_height());
    assert_eq!(block_1, ledger.latest_block());
}

#[test]
fn test_mine_rejections() {
    let mut ledger = new_ledger();
    let block_1 = ledger.mine_next_block(ADDRESS, &Vec::new(), 5).expect("Failed to mine");
    ledger.add_next_block(&block_1).expect("Failed to add next block to ledger");

    assert_eq!(
        Err(LedgerError::InvalidTimestamp { minimum: 5, claimed: 5 }),
        ledger.mine_next_block(ADDRESS, &Vec::new(), 5)
    );
    assert!(ledger.mine_next_block(ADDRESS, &Vec::new(), 6).is_ok());
}

#[test]
fn test_revert_rejections() {
    let mut ledger = new_ledger();
    assert_eq!(
        Err(LedgerError::InvalidRevertHeight { requested: 1, latest: 0 }),
        ledger.revert_to_block_height(1)
    );
    // Reverting to the current tip removes nothing.
    let removed = ledger.revert_to_block_height(0).expect("Failed to revert to the tip");
    assert!(removed.is_empty());
    assert_eq!(0, ledger.latest_block_height());
}

#[test]
fn test_append_revert_round_trip_observables() {
    let mut short = new_ledger();
    let mut long = new_ledger();

    let block_1 = short.mine_next_block(ADDRESS, &Vec::new(), 1).expect("Failed to mine");
    short.add_next_block(&block_1).expect("Failed to add next block to ledger");
    long.add_next_block(&block_1).expect("Failed to add next block to ledger");

    let block_2 = long.mine_next_block(ADDRESS, &Vec::new(), 2).expect("Failed to mine");
    let block_3_base = {
        long.add_next_block(&block_2).expect("Failed to add next block to ledger");
        let block_3 = long.mine_next_block(ADDRESS, &Vec::new(), 3).expect("Failed to mine");
        long.add_next_block(&block_3).expect("Failed to add next block to ledger");
        block_3
    };
    assert_eq!(3, long.latest_block_height());

    // Reverting the two extra blocks restores every observable of the
    // shorter chain.
    let removed = long.revert_to_block_height(1).expect("Failed to revert");
    assert_eq!(vec![block_2, block_3_base], removed);
    assert_eq!(short.latest_block_height(), long.latest_block_height());
    assert_eq!(short.latest_block_hash(), long.latest_block_hash());
    assert_eq!(short.latest_ledger_root(), long.latest_ledger_root());
    assert_eq!(short.latest_block(), long.latest_block());
    let locators_short = short.latest_block_locators();
    let locators_long = long.latest_block_locators();
    assert_eq!(locators_short.len(), locators_long.len());
    assert_eq!(locators_short.get(0), locators_long.get(0));
    assert_eq!(locators_short.get(1), locators_long.get(1));
}

#[test]
fn test_transaction_queries() {
    let mut ledger = new_ledger();
    let extra = Transaction {
        transaction_id: 1000,
        transition_id: 2000,
        ciphertext_id: 3000,
        ciphertext: 4000,
    };
    let block = ledger
        .mine_next_block(ADDRESS, &vec![extra], 1)
        .expect("Failed to mine");
    ledger.add_next_block(&block).expect("Failed to add next block to ledger");

    let coinbase = block.transactions[0];
    let found = ledger
        .get_transaction(coinbase.transaction_id)
        .expect("Failed to get the coinbase transaction");
    assert_eq!(coinbase, found);

    let metadata = ledger
        .get_transaction_metadata(extra.transaction_id)
        .expect("Failed to get transaction metadata");
    assert_eq!(1, metadata.block_height);
    assert_eq!(block.hash(), metadata.block_hash);
    assert_eq!(1, metadata.block_timestamp);
    assert_eq!(1, metadata.transaction_index);

    assert_eq!(extra, ledger.get_transition(2000).expect("Failed to get transition"));
    assert_eq!(4000, ledger.get_ciphertext(3000).expect("Failed to get ciphertext"));

    assert_eq!(Err(LedgerError::UnknownTransaction(77)), ledger.get_transaction(77));
    assert_eq!(Err(LedgerError::UnknownTransition(77)), ledger.get_transition(77));
    assert_eq!(Err(LedgerError::UnknownCiphertext(77)), ledger.get_ciphertext(77));
    assert_eq!(Err(LedgerError::UnknownBlockHash(77)), ledger.get_block_height(77));
    assert_eq!(Err(LedgerError::InvalidBlockHeight(9)), ledger.get_block(9));
    assert_eq!(
        Err(LedgerError::InvalidRange { start: 2, end: 1 }),
        ledger.get_blocks(2, 1)
    );

    assert_eq!(1, ledger.get_block_height(block.hash()).expect("Failed to get block height"));
    assert_eq!(block.hash(), ledger.get_block_hash(1).expect("Failed to get block hash"));
    assert_eq!(block.header(), ledger.get_block_header(1).expect("Failed to get block header"));
    assert_eq!(
        block.transactions,
        ledger.get_block_transactions(1).expect("Failed to get block transactions")
    );
}

#[test]
fn test_mine_rejects_an_overfull_block() {
    let ledger = new_ledger();
    let oversized: Vec<Transaction> = (0..65535u64)
        .map(|n| Transaction {
            transaction_id: n,
            transition_id: n,
            ciphertext_id: n,
            ciphertext: n,
        })
        .collect();
    assert_eq!(
        Err(LedgerError::TooManyTransactions),
        ledger.mine_next_block(ADDRESS, &oversized, 1)
    );
}
