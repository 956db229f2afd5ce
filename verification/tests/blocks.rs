use multisig_blockchain::block::meets_target;
use multisig_blockchain::digest::hash_hex;
use multisig_blockchain::encoding::encode_block_preimage;
use multisig_blockchain::{Block, Timestamp, Transaction, TransactionType};

fn sample_transactions() -> Vec<Transaction> {
    vec![
        Transaction::new_at(
            TransactionType::Standard {
                from: "genesis".to_string(),
                to: "Alice".to_string(),
                amount: 100,
            },
            Timestamp::new(10, 0),
            1,
        ),
        Transaction::new_at(
            TransactionType::MultiSig {
                from: "Alice".to_string(),
                to: "Bob".to_string(),
                amount: 40,
                required_signatures: 1,
                signatures: vec!["Alice".to_string()],
            },
            Timestamp::new(11, 0),
            2,
        ),
    ]
}

fn sample_block() -> Block {
    Block::new_at(3, Timestamp::new(20, 5), sample_transactions(), "00ab".to_string())
}

#[test]
fn target_counts_leading_zero_digits() {
    assert!(meets_target(&"00ab".to_string(), 0));
    assert!(meets_target(&"00ab".to_string(), 1));
    assert!(meets_target(&"00ab".to_string(), 2));
    assert!(!meets_target(&"00ab".to_string(), 3));
    assert!(!meets_target(&"00ab".to_string(), 4));
    assert!(!meets_target(&"00ab".to_string(), 5));
    assert!(!meets_target(&"a000".to_string(), 1));
    assert!(meets_target(&"000".to_string(), 3));
    assert!(!meets_target(&"000".to_string(), 4));
    assert!(meets_target(&String::new(), 0));
    assert!(!meets_target(&String::new(), 1));
    assert!(meets_target(&"0é0".to_string(), 1));
    assert!(!meets_target(&"0é0".to_string(), 2));
    assert!(!meets_target(&"O0".to_string(), 1));
}

#[test]
fn new_block_has_nonce_zero_and_the_hash_of_its_contents() {
    let block = sample_block();
    assert_eq!(block.index, 3);
    assert_eq!(block.timestamp, Timestamp::new(20, 5));
    assert_eq!(block.transactions, sample_transactions());
    assert_eq!(block.previous_hash, "00ab");
    assert_eq!(block.nonce, 0);
    assert_eq!(block.hash, block.calculate_hash());
    assert_eq!(block.hash, hash_hex(&encode_block_preimage(&block)));
    assert_eq!(block.hash.len(), 64);
}

#[test]
fn block_new_stamps_the_present_time() {
    let before = chrono::Utc::now().timestamp();
    let block = Block::new(1, sample_transactions(), "00ab".to_string());
    let after = chrono::Utc::now().timestamp();
    assert!(before <= block.timestamp.secs && block.timestamp.secs <= after);
    let same = Block::new_at(1, block.timestamp, sample_transactions(), "00ab".to_string());
    assert_eq!(block, same);
}

#[test]
fn calculate_hash_is_pure() {
    let block = sample_block();
    let first = block.calculate_hash();
    let second = block.calculate_hash();
    assert_eq!(first, second);
    assert_eq!(block, sample_block());
    assert_eq!(sample_block().calculate_hash(), first);
}

#[test]
fn calculate_hash_ignores_the_stored_hash_and_reads_every_other_field() {
    let block = sample_block();
    let digest = block.calculate_hash();

    let mut other_hash = block.clone();
    other_hash.hash = "ffff".to_string();
    assert_eq!(other_hash.calculate_hash(), digest);

    let mut other_index = block.clone();
    other_index.index = 4;
    assert_ne!(other_index.calculate_hash(), digest);

    let mut other_time = block.clone();
    other_time.timestamp = Timestamp::new(20, 6);
    assert_ne!(other_time.calculate_hash(), digest);

    let mut other_link = block.clone();
    other_link.previous_hash = "00ac".to_string();
    assert_ne!(other_link.calculate_hash(), digest);

    let mut other_nonce = block.clone();
    other_nonce.nonce = 1;
    assert_ne!(other_nonce.calculate_hash(), digest);

    let mut fewer = block.clone();
    fewer.transactions.pop();
    assert_ne!(fewer.calculate_hash(), digest);

    let mut swapped = block.clone();
    swapped.transactions.reverse();
    assert_ne!(swapped.calculate_hash(), digest);

    let mut other_amount = block.clone();
    other_amount.transactions[0].tx_type = TransactionType::Standard {
        from: "genesis".to_string(),
        to: "Alice".to_string(),
        amount: 101,
    };
    assert_ne!(other_amount.calculate_hash(), digest);
}

#[test]
fn mining_at_difficulty_zero_changes_nothing() {
    let mut block = sample_block();
    assert!(block.mine_block(0));
    assert_eq!(block, sample_block());
}

#[test]
fn mining_finds_the_first_nonce_that_meets_the_difficulty() {
    for difficulty in 1..=2usize {
        let mut block = sample_block();
        assert!(block.mine_block(difficulty));
        assert!(block.hash.starts_with(&"0".repeat(difficulty)));
        assert_eq!(block.hash, block.calculate_hash());
        assert_eq!(block.index, 3);
        assert_eq!(block.timestamp, Timestamp::new(20, 5));
        assert_eq!(block.transactions, sample_transactions());
        assert_eq!(block.previous_hash, "00ab");

        let mut probe = sample_block();
        for nonce in 0..block.nonce {
            probe.nonce = nonce;
            assert!(!probe.calculate_hash().starts_with(&"0".repeat(difficulty)));
        }
    }
}

#[test]
fn mining_twice_is_mining_once() {
    let mut block = sample_block();
    assert!(block.mine_block(2));
    let mined = block.clone();
    assert!(block.mine_block(2));
    assert_eq!(block, mined);
    assert!(block.mine_block(1));
    assert_eq!(block, mined);
}

#[test]
fn mining_trusts_a_stored_hash_that_meets_the_difficulty() {
    let mut block = sample_block();
    block.hash = "0000".to_string();
    assert!(block.mine_block(3));
    assert_eq!(block.nonce, 0);
    assert_eq!(block.hash, "0000");
}

#[test]
fn mining_starts_after_the_present_nonce() {
    let mut block = sample_block();
    block.nonce = 1000;
    block.hash = "stale".to_string();
    assert!(block.mine_block(1));
    assert!(block.nonce > 1000);
    assert!(block.hash.starts_with('0'));
    assert_eq!(block.hash, block.calculate_hash());
    let mut probe = sample_block();
    for nonce in 1001..block.nonce {
        probe.nonce = nonce;
        assert!(!probe.calculate_hash().starts_with('0'));
    }
}

#[test]
fn mining_gives_up_at_the_largest_nonce() {
    let mut block = sample_block();
    block.nonce = u64::MAX - 3;
    block.hash = block.calculate_hash();
    assert!(!block.mine_block(65));
    assert_eq!(block.nonce, u64::MAX);
    assert_eq!(block.hash, block.calculate_hash());
    assert_eq!(block.transactions, sample_transactions());

    let at_end = block.clone();
    assert!(!block.mine_block(65));
    assert_eq!(block, at_end);
}
