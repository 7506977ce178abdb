use blockchain_sim::block::{hash_meets_difficulty, Block, DIFFICULTY};
use blockchain_sim::blockchain::{Blockchain, MineStatus, COINBASE_SENDER, REWARD};

#[test]
fn new_chain_holds_a_mined_genesis_block() {
    let bc = Blockchain::new();
    assert_eq!(bc.get_total_blocks(), 1);
    assert_eq!(bc.pending_count(), 0);
    assert_eq!(bc.difficulty(), DIFFICULTY);
    let genesis = &bc.chain()[0];
    assert_eq!(genesis.index, 0);
    assert!(genesis.previous_hash.is_empty());
    assert!(genesis.transactions.is_empty());
    assert!(genesis.mined);
    assert!(genesis.hash.starts_with("00"));
}

#[test]
fn alice_and_bob_scenario() {
    let mut bc = Blockchain::new();
    assert!(bc.create_transaction("alice", "bob", 50, "k1"));
    assert!(bc.create_transaction("bob", "alice", 20, "k2"));
    assert_eq!(bc.pending_count(), 2);
    assert_eq!(bc.mine_pending_transactions("miner1"), MineStatus::Mined);
    assert_eq!(bc.pending_count(), 0);
    assert_eq!(bc.get_total_blocks(), 2);
    assert_eq!(bc.get_balance("miner1"), 100);
    assert_eq!(bc.get_balance("alice"), -30);
    assert_eq!(bc.get_balance("bob"), 30);
    assert_eq!(bc.get_balance("carol"), 0);
}

#[test]
fn mining_an_empty_pool_changes_nothing() {
    let mut bc = Blockchain::with_difficulty(1);
    assert_eq!(bc.mine_pending_transactions("miner1"), MineStatus::NothingToMine);
    assert_eq!(bc.get_total_blocks(), 1);
    assert_eq!(bc.get_balance("miner1"), 0);
}

#[test]
fn mined_block_starts_with_one_coinbase() {
    let mut bc = Blockchain::with_difficulty(1);
    assert!(bc.create_transaction("alice", "bob", 5, "k"));
    assert_eq!(bc.mine_pending_transactions("m"), MineStatus::Mined);
    assert_eq!(bc.pending_count(), 0);
    let block = &bc.chain()[1];
    assert_eq!(block.transactions.len(), 2);
    let coinbase = &block.transactions[0];
    assert_eq!(coinbase.sender, COINBASE_SENDER);
    assert_eq!(coinbase.recipient, "m");
    assert_eq!(coinbase.amount, REWARD);
    assert_eq!(block.transactions[1].sender, "alice");
    assert_eq!(block.transactions[1].amount, 5);
    assert!(block.transactions[1].verify_signature());
}

#[test]
fn chain_is_linked_and_indexed() {
    let mut bc = Blockchain::with_difficulty(1);
    for round in 0..4i64 {
        assert!(bc.create_transaction("a", "b", round, "k"));
        assert_eq!(bc.mine_pending_transactions("m"), MineStatus::Mined);
    }
    let chain = bc.chain();
    assert_eq!(chain.len(), 5);
    for (i, block) in chain.iter().enumerate() {
        assert_eq!(block.index as usize, i);
        assert_eq!(block.calculate_hash(), block.hash);
        assert!(hash_meets_difficulty(&block.hash, 1));
        if i > 0 {
            assert_eq!(block.previous_hash, chain[i - 1].hash);
        }
    }
}

#[test]
fn add_block_links_indexes_and_mines() {
    let mut bc = Blockchain::with_difficulty(2);
    let block = Block::new(42, String::from("ignored"), Vec::new());
    assert!(bc.add_block(block));
    assert_eq!(bc.get_total_blocks(), 2);
    let chain = bc.chain();
    assert_eq!(chain[1].index, 1);
    assert_eq!(chain[1].previous_hash, chain[0].hash);
    assert!(chain[1].mined);
    assert!(chain[1].hash.starts_with("00"));
    assert_eq!(chain[1].calculate_hash(), chain[1].hash);
}

#[test]
fn balances_sum_to_minted_rewards() {
    let mut bc = Blockchain::with_difficulty(1);
    assert!(bc.create_transaction("alice", "bob", 50, "k1"));
    assert!(bc.create_transaction("bob", "carol", 70, "k2"));
    assert_eq!(bc.mine_pending_transactions("m1"), MineStatus::Mined);
    assert!(bc.create_transaction("carol", "alice", 5, "k3"));
    assert!(bc.create_transaction("alice", "alice", 9, "k4"));
    assert_eq!(bc.mine_pending_transactions("m2"), MineStatus::Mined);
    let total: i128 = ["alice", "bob", "carol", "m1", "m2"]
        .iter()
        .map(|a| bc.get_balance(a))
        .sum();
    assert_eq!(total, 2 * REWARD as i128);
    assert_eq!(bc.get_balance(COINBASE_SENDER), -2 * REWARD as i128);
    assert_eq!(bc.get_balance("alice"), -45);
    assert_eq!(bc.get_balance("carol"), 65);
}

#[test]
fn overspending_and_negative_amounts_are_accepted() {
    let mut bc = Blockchain::with_difficulty(0);
    assert!(bc.create_transaction("a", "b", 1_000_000, "k"));
    assert!(bc.create_transaction("a", "b", -7, "k"));
    assert!(bc.create_transaction("a", "b", 0, "k"));
    assert_eq!(bc.mine_pending_transactions("m"), MineStatus::Mined);
    assert_eq!(bc.get_balance("a"), -999_993);
    assert_eq!(bc.get_balance("b"), 999_993);
}

#[test]
fn pending_transactions_wait_until_mined() {
    let mut bc = Blockchain::with_difficulty(1);
    assert!(bc.create_transaction("a", "b", 3, "k"));
    assert_eq!(bc.get_balance("b"), 0);
    assert_eq!(bc.pending_count(), 1);
    assert_eq!(bc.mine_pending_transactions("m"), MineStatus::Mined);
    assert_eq!(bc.get_balance("b"), 3);
}
