//! The canonical byte encoding that every hash in the ledger is taken over.
//!
//! Integers are written as eight bytes, least significant first. A text is
//! written as the length of its UTF-8 form followed by that form. A list is
//! written as its length followed by its items in order. Each hashed message
//! starts with the version byte of the encoding.

use crate::time::Timestamp;
use crate::block::{Block, BlockView};
use crate::transaction::{Transaction, TransactionType, TransactionTypeView, TransactionView};
use vstd::bytes::{spec_u32_to_le_bytes, spec_u64_to_le_bytes, u32_to_le_bytes, u64_to_le_bytes};
use vstd::prelude::*;
use vstd::utf8::encode_utf8;

verus! {

/// The version of the encoding; the first byte of every hashed message.
pub const ENCODING_VERSION: u8 = 1;

/// The tag byte of a plain transfer.
pub const TAG_STANDARD: u8 = 0;

/// The tag byte of a multi-signature transfer.
pub const TAG_MULTISIG: u8 = 1;

/// The tag byte of a time-locked transfer.
pub const TAG_TIMELOCKED: u8 = 2;

/// What must be added to a count of seconds to make it non-negative.
pub const SECONDS_OFFSET: i128 = 0x8000_0000_0000_0000;

/// An integer: eight bytes, least significant first.
pub open spec fn u64_bytes(x: u64) -> Seq<u8> {
    spec_u64_to_le_bytes(x)
}

/// A length or count, written as an integer.
pub open spec fn count_bytes(n: nat) -> Seq<u8> {
    u64_bytes(n as u64)
}

/// A text: the length of its UTF-8 form, then that form.
pub open spec fn text_bytes(text: Seq<char>) -> Seq<u8> {
    count_bytes(encode_utf8(text).len()) + encode_utf8(text)
}

/// A timestamp: the seconds, shifted to be non-negative, then the nanoseconds
/// as four bytes.
pub open spec fn time_bytes(t: Timestamp) -> Seq<u8> {
    u64_bytes((t.secs + SECONDS_OFFSET) as u64) + spec_u32_to_le_bytes(t.nanos)
}

/// The texts of a list, one after another.
pub open spec fn texts_bytes(texts: Seq<Seq<char>>) -> Seq<u8>
    decreases texts.len(),
{
    if texts.len() == 0 {
        Seq::empty()
    } else {
        texts_bytes(texts.drop_last()) + text_bytes(texts.last())
    }
}

/// A transfer: its tag, the two addresses, the amount, then what its shape adds.
pub open spec fn transfer_bytes(t: TransactionTypeView) -> Seq<u8> {
    match t {
        TransactionTypeView::Standard { from, to, amount } => {
            seq![TAG_STANDARD] + text_bytes(from) + text_bytes(to) + u64_bytes(amount)
        },
        TransactionTypeView::MultiSig { from, to, amount, required_signatures, signatures } => {
            seq![TAG_MULTISIG] + text_bytes(from) + text_bytes(to) + u64_bytes(amount)
                + count_bytes(required_signatures as nat) + count_bytes(signatures.len())
                + texts_bytes(signatures)
        },
        TransactionTypeView::TimeLocked { from, to, amount, unlock_time } => {
            seq![TAG_TIMELOCKED] + text_bytes(from) + text_bytes(to) + u64_bytes(amount)
                + time_bytes(unlock_time)
        },
    }
}

/// The message whose digest identifies a transaction.
pub open spec fn id_preimage(t: TransactionTypeView, timestamp: Timestamp, nonce: u64) -> Seq<u8> {
    seq![ENCODING_VERSION] + transfer_bytes(t) + time_bytes(timestamp) + u64_bytes(nonce)
}

/// A transaction: its identity, then the values the identity was taken over.
pub open spec fn transaction_bytes(tx: TransactionView) -> Seq<u8> {
    text_bytes(tx.id) + transfer_bytes(tx.tx_type) + time_bytes(tx.timestamp) + u64_bytes(tx.nonce)
}

/// The transactions of a list, one after another.
pub open spec fn transactions_bytes(txs: Seq<TransactionView>) -> Seq<u8>
    decreases txs.len(),
{
    if txs.len() == 0 {
        Seq::empty()
    } else {
        transactions_bytes(txs.drop_last()) + transaction_bytes(txs.last())
    }
}

/// The message whose digest is a block's hash. It covers the index, the
/// timestamp, the transactions, the previous hash and the nonce, and nothing
/// else: the stored hash is no part of it.
pub open spec fn block_preimage(b: BlockView) -> Seq<u8> {
    seq![ENCODING_VERSION] + u64_bytes(b.index) + time_bytes(b.timestamp) + count_bytes(
        b.transactions.len(),
    ) + transactions_bytes(b.transactions) + text_bytes(b.previous_hash) + u64_bytes(b.nonce)
}

/// The UTF-8 form of a text is short enough for its length to be written.
pub open spec fn text_fits(text: Seq<char>) -> bool {
    encode_utf8(text).len() <= u64::MAX
}

/// Every text of a list fits.
pub open spec fn texts_fit(texts: Seq<Seq<char>>) -> bool {
    forall|i: int| 0 <= i < texts.len() ==> text_fits(#[trigger] texts[i])
}

/// Every length that the encoding of a transfer writes fits.
pub open spec fn transfer_fits(t: TransactionTypeView) -> bool {
    &&& text_fits(t.sender())
    &&& text_fits(t.recipient())
    &&& t matches TransactionTypeView::MultiSig { signatures, .. } ==> {
        &&& signatures.len() <= u64::MAX
        &&& texts_fit(signatures)
    }
}

/// Every length that the encoding of a transaction writes fits.
pub open spec fn transaction_fits(tx: TransactionView) -> bool {
    text_fits(tx.id) && transfer_fits(tx.tx_type)
}

/// Every transaction of a list fits.
pub open spec fn transactions_fit(txs: Seq<TransactionView>) -> bool {
    forall|i: int| 0 <= i < txs.len() ==> transaction_fits(#[trigger] txs[i])
}

/// Every length that the encoding of a block writes fits.
pub open spec fn block_fits(b: BlockView) -> bool {
    &&& b.transactions.len() <= u64::MAX
    &&& transactions_fit(b.transactions)
    &&& text_fits(b.previous_hash)
}

/// Appends an integer.
pub fn put_u64(out: &mut Vec<u8>, x: u64)
    ensures
        final(out)@ == old(out)@ + u64_bytes(x),
{
    let mut bytes = u64_to_le_bytes(x);
    out.append(&mut bytes);
}

/// Appends a length or count.
pub fn put_count(out: &mut Vec<u8>, n: usize)
    ensures
        final(out)@ == old(out)@ + count_bytes(n as nat),
{
    put_u64(out, n as u64);
}

/// Appends a text.
pub fn put_text(out: &mut Vec<u8>, text: &String)
    ensures
        final(out)@ == old(out)@ + text_bytes(text@),
        text_fits(text@),
{
    let mut bytes = text.as_str().as_bytes_vec();
    put_count(out, bytes.len());
    out.append(&mut bytes);
}

/// Appends a timestamp.
pub fn put_time(out: &mut Vec<u8>, t: Timestamp)
    ensures
        final(out)@ == old(out)@ + time_bytes(t),
{
    let shifted: u64 = (t.secs as i128 + SECONDS_OFFSET) as u64;
    put_u64(out, shifted);
    let mut bytes = u32_to_le_bytes(t.nanos);
    out.append(&mut bytes);
}

/// Appends every text of a list, in order.
pub fn put_texts(out: &mut Vec<u8>, texts: &Vec<String>)
    ensures
        final(out)@ == old(out)@ + texts_bytes(texts.deep_view()),
        texts_fit(texts.deep_view()),
{
    let ghost start = out@;
    let mut i: usize = 0;
    while i < texts.len()
        invariant
            i <= texts.len(),
            out@ == start + texts_bytes(texts.deep_view().take(i as int)),
            forall|j: int| 0 <= j < i ==> text_fits(#[trigger] texts.deep_view()[j]),
        decreases texts.len() - i,
    {
        put_text(out, &texts[i]);
        proof {
            let done = texts.deep_view().take(i + 1);
            assert(done.drop_last() == texts.deep_view().take(i as int));
            assert(done.last() == texts[i as int]@);
        }
        i += 1;
    }
    proof {
        assert(texts.deep_view().take(i as int) == texts.deep_view());
    }
}

/// Appends a transfer.
pub fn put_transfer(out: &mut Vec<u8>, t: &TransactionType)
    ensures
        final(out)@ == old(out)@ + transfer_bytes(t@),
        transfer_fits(t@),
{
    match t {
        TransactionType::Standard { from, to, amount } => {
            out.push(TAG_STANDARD);
            put_text(out, from);
            put_text(out, to);
            put_u64(out, *amount);
        },
        TransactionType::MultiSig { from, to, amount, required_signatures, signatures } => {
            out.push(TAG_MULTISIG);
            put_text(out, from);
            put_text(out, to);
            put_u64(out, *amount);
            put_count(out, *required_signatures);
            put_count(out, signatures.len());
            put_texts(out, signatures);
        },
        TransactionType::TimeLocked { from, to, amount, unlock_time } => {
            out.push(TAG_TIMELOCKED);
            put_text(out, from);
            put_text(out, to);
            put_u64(out, *amount);
            put_time(out, *unlock_time);
        },
    }
}

/// Builds the message whose digest identifies a transaction.
pub fn encode_id_preimage(t: &TransactionType, timestamp: Timestamp, nonce: u64) -> (out: Vec<u8>)
    ensures
        out@ == id_preimage(t@, timestamp, nonce),
        transfer_fits(t@),
{
    let mut out: Vec<u8> = Vec::new();
    out.push(ENCODING_VERSION);
    put_transfer(&mut out, t);
    put_time(&mut out, timestamp);
    put_u64(&mut out, nonce);
    out
}

/// Appends a transaction.
pub fn put_transaction(out: &mut Vec<u8>, tx: &Transaction)
    ensures
        final(out)@ == old(out)@ + transaction_bytes(tx@),
        transaction_fits(tx@),
{
    put_text(out, &tx.id);
    put_transfer(out, &tx.tx_type);
    put_time(out, tx.timestamp);
    put_u64(out, tx.nonce);
}

/// Appends every transaction of a list, in order.
pub fn put_transactions(out: &mut Vec<u8>, txs: &Vec<Transaction>)
    ensures
        final(out)@ == old(out)@ + transactions_bytes(txs.deep_view()),
        transactions_fit(txs.deep_view()),
{
    let ghost start = out@;
    let mut i: usize = 0;
    while i < txs.len()
        invariant
            i <= txs.len(),
            out@ == start + transactions_bytes(txs.deep_view().take(i as int)),
            forall|j: int| 0 <= j < i ==> transaction_fits(#[trigger] txs.deep_view()[j]),
        decreases txs.len() - i,
    {
        put_transaction(out, &txs[i]);
        proof {
            let done = txs.deep_view().take(i + 1);
            assert(done.drop_last() == txs.deep_view().take(i as int));
            assert(done.last() == txs[i as int]@);
        }
        i += 1;
    }
    proof {
        assert(txs.deep_view().take(i as int) == txs.deep_view());
    }
}

/// Builds the message whose digest is a block's hash.
pub fn encode_block_preimage(b: &Block) -> (out: Vec<u8>)
    ensures
        out@ == block_preimage(b@),
        block_fits(b@),
{
    let mut out: Vec<u8> = Vec::new();
    out.push(ENCODING_VERSION);
    put_u64(&mut out, b.index);
    put_time(&mut out, b.timestamp);
    put_count(&mut out, b.transactions.len());
    put_transactions(&mut out, &b.transactions);
    put_text(&mut out, &b.previous_hash);
    put_u64(&mut out, b.nonce);
    out
}

} // verus!
