//! Transactions: the three shapes a transfer can take, and what admits each.

use crate::digest::{hash_hex, hash_hex_of};
use crate::encoding::{encode_id_preimage, id_preimage};
use crate::time::{current_time, Timestamp};
use vstd::prelude::*;

verus! {

/// The shape of a transfer and the conditions attached to it. Amounts are whole
/// minor units.
#[derive(Debug, Clone, PartialEq, Eq)]
pub enum TransactionType {
    /// A plain transfer.
    Standard { from: String, to: String, amount: u64 },
    /// A transfer that needs at least `required_signatures` entries in
    /// `signatures`. Only their number counts: entries may repeat, and none is
    /// checked against any registry.
    MultiSig {
        from: String,
        to: String,
        amount: u64,
        required_signatures: usize,
        signatures: Vec<String>,
    },
    /// A transfer that is admitted only once `unlock_time` has come.
    TimeLocked { from: String, to: String, amount: u64, unlock_time: Timestamp },
}

/// The mathematical value of a [`TransactionType`].
pub enum TransactionTypeView {
    Standard { from: Seq<char>, to: Seq<char>, amount: u64 },
    MultiSig {
        from: Seq<char>,
        to: Seq<char>,
        amount: u64,
        required_signatures: usize,
        signatures: Seq<Seq<char>>,
    },
    TimeLocked { from: Seq<char>, to: Seq<char>, amount: u64, unlock_time: Timestamp },
}

/// Why a transaction is not admitted.
#[derive(Debug, Clone, Copy, PartialEq, Eq, Structural)]
pub enum ValidationError {
    /// A multi-signature transfer carries fewer signatures than it requires.
    InsufficientSignatures { required: usize, provided: usize },
    /// A time-locked transfer was presented before its unlock time.
    StillLocked { unlock_time: Timestamp },
}

impl TransactionTypeView {
    /// The address that pays.
    pub open spec fn sender(self) -> Seq<char> {
        match self {
            TransactionTypeView::Standard { from, .. } => from,
            TransactionTypeView::MultiSig { from, .. } => from,
            TransactionTypeView::TimeLocked { from, .. } => from,
        }
    }

    /// The address that is paid.
    pub open spec fn recipient(self) -> Seq<char> {
        match self {
            TransactionTypeView::Standard { to, .. } => to,
            TransactionTypeView::MultiSig { to, .. } => to,
            TransactionTypeView::TimeLocked { to, .. } => to,
        }
    }

    /// The amount moved.
    pub open spec fn amount(self) -> u64 {
        match self {
            TransactionTypeView::Standard { amount, .. } => amount,
            TransactionTypeView::MultiSig { amount, .. } => amount,
            TransactionTypeView::TimeLocked { amount, .. } => amount,
        }
    }

    /// The verdict on a transfer presented at time `now`: a plain transfer
    /// always passes, a multi-signature transfer passes exactly when it carries
    /// at least as many signatures as it requires, and a time-locked transfer
    /// passes exactly when `now` is not before its unlock time.
    pub open spec fn validate(self, now: Timestamp) -> Result<(), ValidationError> {
        match self {
            TransactionTypeView::Standard { .. } => Ok(()),
            TransactionTypeView::MultiSig { required_signatures, signatures, .. } => {
                if signatures.len() >= required_signatures {
                    Ok(())
                } else {
                    Err(
                        ValidationError::InsufficientSignatures {
                            required: required_signatures,
                            provided: signatures.len() as usize,
                        },
                    )
                }
            },
            TransactionTypeView::TimeLocked { unlock_time, .. } => {
                if now.reached(unlock_time) {
                    Ok(())
                } else {
                    Err(ValidationError::StillLocked { unlock_time })
                }
            },
        }
    }
}

impl View for TransactionType {
    type V = TransactionTypeView;

    open spec fn view(&self) -> TransactionTypeView {
        match *self {
            TransactionType::Standard { from, to, amount } => TransactionTypeView::Standard {
                from: from@,
                to: to@,
                amount,
            },
            TransactionType::MultiSig {
                from,
                to,
                amount,
                required_signatures,
                signatures,
            } => TransactionTypeView::MultiSig {
                from: from@,
                to: to@,
                amount,
                required_signatures,
                signatures: signatures.deep_view(),
            },
            TransactionType::TimeLocked {
                from,
                to,
                amount,
                unlock_time,
            } => TransactionTypeView::TimeLocked { from: from@, to: to@, amount, unlock_time },
        }
    }
}

impl DeepView for TransactionType {
    type V = TransactionTypeView;

    open spec fn deep_view(&self) -> TransactionTypeView {
        self@
    }
}

impl TransactionType {
    /// The address that pays.
    pub fn sender(&self) -> (address: &String)
        ensures
            address@ == self@.sender(),
    {
        match self {
            TransactionType::Standard { from, .. } => from,
            TransactionType::MultiSig { from, .. } => from,
            TransactionType::TimeLocked { from, .. } => from,
        }
    }

    /// The address that is paid.
    pub fn recipient(&self) -> (address: &String)
        ensures
            address@ == self@.recipient(),
    {
        match self {
            TransactionType::Standard { to, .. } => to,
            TransactionType::MultiSig { to, .. } => to,
            TransactionType::TimeLocked { to, .. } => to,
        }
    }

    /// The amount moved.
    pub fn amount(&self) -> (amount: u64)
        ensures
            amount == self@.amount(),
    {
        match self {
            TransactionType::Standard { amount, .. } => *amount,
            TransactionType::MultiSig { amount, .. } => *amount,
            TransactionType::TimeLocked { amount, .. } => *amount,
        }
    }
}

/// A transfer together with its identity: a content hash fixed at creation, the
/// time of creation and a sequence number chosen by the caller.
#[derive(Debug, Clone, PartialEq, Eq)]
pub struct Transaction {
    pub id: String,
    pub tx_type: TransactionType,
    pub timestamp: Timestamp,
    pub nonce: u64,
}

/// The mathematical value of a [`Transaction`].
pub struct TransactionView {
    pub id: Seq<char>,
    pub tx_type: TransactionTypeView,
    pub timestamp: Timestamp,
    pub nonce: u64,
}

impl TransactionView {
    /// The identity that belongs to a transfer created at `timestamp` with
    /// sequence number `nonce`.
    pub open spec fn id_of(tx_type: TransactionTypeView, timestamp: Timestamp, nonce: u64) -> Seq<
        char,
    > {
        hash_hex_of(id_preimage(tx_type, timestamp, nonce))
    }

    /// The transaction that creation yields from these three values.
    pub open spec fn created(
        tx_type: TransactionTypeView,
        timestamp: Timestamp,
        nonce: u64,
    ) -> TransactionView {
        TransactionView { id: Self::id_of(tx_type, timestamp, nonce), tx_type, timestamp, nonce }
    }
}

impl View for Transaction {
    type V = TransactionView;

    open spec fn view(&self) -> TransactionView {
        TransactionView {
            id: self.id@,
            tx_type: self.tx_type@,
            timestamp: self.timestamp,
            nonce: self.nonce,
        }
    }
}

impl DeepView for Transaction {
    type V = TransactionView;

    open spec fn deep_view(&self) -> TransactionView {
        self@
    }
}

impl Transaction {
    /// Creates a transaction stamped with the present time.
    ///
    /// The clock decides the timestamp; everything else is determined by it and
    /// the arguments.
    pub fn new(tx_type: TransactionType, nonce: u64) -> (tx: Transaction)
        ensures
            tx@ == TransactionView::created(tx_type@, tx.timestamp, nonce),
    {
        let timestamp = current_time();
        Transaction::new_at(tx_type, timestamp, nonce)
    }

    /// Creates a transaction stamped with `timestamp`. Its identity is the
    /// hexadecimal SHA-256 digest of the encoded transfer, timestamp and
    /// sequence number.
    pub fn new_at(tx_type: TransactionType, timestamp: Timestamp, nonce: u64) -> (tx: Transaction)
        ensures
            tx@ == TransactionView::created(tx_type@, timestamp, nonce),
    {
        let id = Transaction::calculate_hash(&tx_type, timestamp, nonce);
        Transaction { id, tx_type, timestamp, nonce }
    }

    /// Computes the identity that belongs to a transfer, a timestamp and a
    /// sequence number.
    fn calculate_hash(tx_type: &TransactionType, timestamp: Timestamp, nonce: u64) -> (id: String)
        ensures
            id@ == TransactionView::id_of(tx_type@, timestamp, nonce),
    {
        let preimage = encode_id_preimage(tx_type, timestamp, nonce);
        hash_hex(&preimage)
    }

    /// Decides whether the transaction may be admitted at `current_time`.
    pub fn is_valid(&self, current_time: Timestamp) -> (verdict: Result<(), ValidationError>)
        ensures
            verdict == self@.tx_type.validate(current_time),
    {
        match &self.tx_type {
            TransactionType::MultiSig { required_signatures, signatures, .. } => {
                if signatures.len() < *required_signatures {
                    return Err(
                        ValidationError::InsufficientSignatures {
                            required: *required_signatures,
                            provided: signatures.len(),
                        },
                    );
                }
            },
            TransactionType::TimeLocked { unlock_time, .. } => {
                if current_time.is_before(unlock_time) {
                    return Err(ValidationError::StillLocked { unlock_time: *unlock_time });
                }
            },
            _ => {},
        }
        Ok(())
    }
}

} // verus!
