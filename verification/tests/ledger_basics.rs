use chrono::Utc;
use multisig_blockchain::{Blockchain, Timestamp, Transaction, TransactionType};

fn timestamp_of(t: chrono::DateTime<Utc>) -> Timestamp {
    Timestamp::new(t.timestamp(), t.timestamp_subsec_nanos())
}

#[test]
fn test_blockchain_creation() {
    let blockchain = Blockchain::new(2).unwrap();
    assert_eq!(blockchain.chain.len(), 1);
    assert!(blockchain.is_chain_valid());
}

#[test]
fn test_standard_transaction() {
    let mut blockchain = Blockchain::new(2).unwrap();

    // Add initial funds
    let tx1 = Transaction::new(
        TransactionType::Standard {
            from: "genesis".to_string(),
            to: "Alice".to_string(),
            amount: 100,
        },
        1,
    );
    blockchain.add_transaction(tx1).unwrap();
    blockchain.mine_pending_transactions();

    assert_eq!(blockchain.get_balance("Alice"), 100);
}

#[test]
fn test_multisig_transaction() {
    let mut blockchain = Blockchain::new(2).unwrap();

    // Create multisig wallet
    blockchain.create_multisig_wallet(
        "vault".to_string(),
        vec!["Alice".to_string(), "Bob".to_string(), "Charlie".to_string()],
    );

    // Fund the vault
    let tx1 = Transaction::new(
        TransactionType::Standard {
            from: "genesis".to_string(),
            to: "vault".to_string(),
            amount: 1000,
        },
        1,
    );
    blockchain.add_transaction(tx1).unwrap();
    blockchain.mine_pending_transactions();

    // Create multisig transaction with 2 of 3 signatures
    let tx2 = Transaction::new(
        TransactionType::MultiSig {
            from: "vault".to_string(),
            to: "Dave".to_string(),
            amount: 500,
            required_signatures: 2,
            signatures: vec!["Alice".to_string(), "Bob".to_string()],
        },
        2,
    );
    blockchain.add_transaction(tx2).unwrap();
    blockchain.mine_pending_transactions();

    assert_eq!(blockchain.get_balance("Dave"), 500);
    assert_eq!(blockchain.get_balance("vault"), 500);
}

#[test]
fn test_time_locked_transaction() {
    let mut blockchain = Blockchain::new(2).unwrap();

    // Create time-locked transaction (unlocks in the past for testing)
    let unlock_time = timestamp_of(Utc::now() - chrono::Duration::hours(1));
    let tx = Transaction::new(
        TransactionType::TimeLocked {
            from: "genesis".to_string(),
            to: "Alice".to_string(),
            amount: 100,
            unlock_time,
        },
        1,
    );

    assert!(blockchain.add_transaction(tx).is_ok());
}
