use blockchain_sim::block::{hash_meets_difficulty, Block};
use blockchain_sim::transaction::Transaction;

fn fixed_block() -> Block {
    Block {
        index: 3,
        previous_hash: String::from("abc"),
        timestamp: 10,
        transactions: vec![Transaction {
            sender: String::from("alice"),
            recipient: String::from("bob"),
            amount: -30,
            timestamp: 17,
            signature: String::from("sig"),
        }],
        nonce: 4,
        hash: String::new(),
        mined: false,
    }
}

fn empty_block() -> Block {
    Block {
        index: 0,
        previous_hash: String::new(),
        timestamp: 5,
        transactions: Vec::new(),
        nonce: 0,
        hash: String::new(),
        mined: false,
    }
}

#[test]
fn difficulty_check_counts_leading_zeros() {
    assert!(hash_meets_difficulty("00ab", 0));
    assert!(hash_meets_difficulty("00ab", 2));
    assert!(!hash_meets_difficulty("00ab", 3));
    assert!(!hash_meets_difficulty("0", 2));
    assert!(hash_meets_difficulty("", 0));
    assert!(!hash_meets_difficulty("a000", 1));
}

#[test]
fn new_block_is_unmined() {
    let b = Block::new(7, String::from("prev"), Vec::new());
    assert_eq!(b.index, 7);
    assert_eq!(b.previous_hash, "prev");
    assert_eq!(b.nonce, 0);
    assert!(b.hash.is_empty());
    assert!(!b.mined);
    assert!(b.transactions.is_empty());
}

#[test]
fn block_hash_covers_fields_and_transaction_hashes() {
    assert_eq!(
        fixed_block().calculate_hash(),
        "1f6b3017ea0683921c1edb6292a02b4ece02756c59f618e570a1fa171d4899b1"
    );
    assert_eq!(
        empty_block().calculate_hash(),
        "1dd68a2d273df991618f7d4a02d8fe2b79ac131ca6eb0791d5042b99e247918e"
    );
}

#[test]
fn mining_at_difficulty_zero_keeps_first_nonce() {
    let mut b = empty_block();
    assert!(b.mine_block(0));
    assert!(b.mined);
    assert_eq!(b.nonce, 0);
    assert_eq!(b.hash, "1dd68a2d273df991618f7d4a02d8fe2b79ac131ca6eb0791d5042b99e247918e");
}

#[test]
fn mining_finds_first_nonce_with_leading_zero() {
    let mut b = empty_block();
    assert!(b.mine_block(1));
    assert_eq!(b.nonce, 7);
    assert_eq!(b.hash, "0230a7f0e3ccb489d22c25507b3976a65addd02f3e44cd6e8f2b4e46cd7bce8e");
}

#[test]
fn mined_hash_has_required_leading_zeros() {
    for d in 0..4usize {
        let mut b = fixed_block();
        assert!(b.mine_block(d));
        assert!(b.hash.starts_with(&"0".repeat(d)));
        assert!(hash_meets_difficulty(&b.hash, d));
    }
}

#[test]
fn mined_hash_recomputes() {
    let mut b = fixed_block();
    assert!(b.mine_block(2));
    assert_eq!(b.calculate_hash(), b.hash);
}

#[test]
fn mining_gives_up_after_last_nonce() {
    let mut b = empty_block();
    b.nonce = u64::MAX;
    assert!(!b.mine_block(65));
    assert!(!b.mined);
    assert_eq!(b.nonce, u64::MAX);
    assert_eq!(b.hash, b.calculate_hash());
}
