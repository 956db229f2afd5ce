//! A minimal append-only ledger: a hash-linked chain of blocks, each holding a
//! batch of typed transactions and secured by a proof-of-work puzzle.
//!
//! Every executable function carries a contract over the mathematical views of
//! the data, and the verifier proves each body against its contract. Amounts are
//! integers in minor units; hashes are lower-case hexadecimal SHA-256 digests of
//! a fixed byte encoding.

pub mod block;
pub mod canonical;
pub mod digest;
pub mod encoding;
pub mod laws;
pub mod ledger;
pub mod time;
pub mod transaction;

pub use block::Block;
pub use ledger::{Blockchain, LedgerError};
pub use time::Timestamp;
pub use transaction::{Transaction, TransactionType, ValidationError};
