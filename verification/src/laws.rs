//! What holds of the ledger as a whole, stated over the mathematical views and
//! proved from the definitions.

use crate::block::{lemma_with_nonce_seals, meets_difficulty, BlockView};
use crate::digest::{hex_digit, hex_of, sha256_of};
use crate::canonical::lemma_block_preimage_injective;
use crate::encoding::{block_fits, block_preimage};
use crate::ledger::{
    balance_at, chain_valid, lemma_append_keeps_valid, link_holds, settle, settle_one,
    BlockchainView, LedgerErrorView, GENESIS_ADDRESS,
};
use crate::time::Timestamp;
use crate::transaction::{TransactionTypeView, TransactionView, ValidationError};
use vstd::prelude::*;

verus! {

/// Two different digit values have different hexadecimal digits.
pub proof fn lemma_hex_digit_injective(a: int, b: int)
    requires
        0 <= a < 16,
        0 <= b < 16,
        hex_digit(a) == hex_digit(b),
    ensures
        a == b,
{
}

/// Two byte strings with the same hexadecimal text are the same.
pub proof fn lemma_hex_injective(a: Seq<u8>, b: Seq<u8>)
    requires
        hex_of(a) == hex_of(b),
    ensures
        a == b,
{
    assert(hex_of(a).len() == 2 * a.len());
    assert(hex_of(b).len() == 2 * b.len());
    assert forall|k: int| 0 <= k < a.len() implies a[k] == b[k] by {
        assert((2 * k) / 2 == k && (2 * k) % 2 == 0);
        assert((2 * k + 1) / 2 == k && (2 * k + 1) % 2 == 1);
        assert(hex_of(a)[2 * k] == hex_digit(a[k] as int / 16));
        assert(hex_of(b)[2 * k] == hex_digit(b[k] as int / 16));
        assert(hex_of(a)[2 * k + 1] == hex_digit(a[k] as int % 16));
        assert(hex_of(b)[2 * k + 1] == hex_digit(b[k] as int % 16));
        lemma_hex_digit_injective(a[k] as int / 16, b[k] as int / 16);
        lemma_hex_digit_injective(a[k] as int % 16, b[k] as int % 16);
    }
    assert(a =~= b);
}

/// Recomputing a hash is a function of the block's index, timestamp,
/// transactions, previous hash and nonce: two blocks that agree on these have
/// the same digest, whatever hash each has stored, so computing the digest of
/// an unchanged block twice gives the same text.
pub proof fn lemma_digest_is_a_function_of_content(a: BlockView, b: BlockView)
    requires
        a.same_content(b),
        a.nonce == b.nonce,
    ensures
        a.digest() == b.digest(),
{
}

/// A block taken from a successful search meets the difficulty that was
/// searched for, and any hash meets difficulty 0.
pub proof fn lemma_solution_meets_difficulty(b: BlockView, from: int, n: u64, d: nat)
    requires
        b.is_first_solution(from, n, d),
    ensures
        meets_difficulty(b.with_nonce(n).hash, d),
        meets_difficulty(b.hash, 0),
{
}

/// A multi-signature transfer with fewer signatures than it requires is turned
/// away for that reason at any time and whatever the balances are; with enough
/// signatures it passes validation.
pub proof fn lemma_multisig_admission(l: BlockchainView, tx: TransactionView, now: Timestamp)
    requires
        tx.tx_type is MultiSig,
    ensures
        tx.tx_type->signatures.len() < tx.tx_type->required_signatures ==> l.admission(tx, now)
            == Err::<(), LedgerErrorView>(
            LedgerErrorView::InvalidTransaction(
                ValidationError::InsufficientSignatures {
                    required: tx.tx_type->required_signatures,
                    provided: tx.tx_type->signatures.len() as usize,
                },
            ),
        ),
        tx.tx_type->signatures.len() >= tx.tx_type->required_signatures ==> tx.tx_type.validate(
            now,
        ) is Ok,
{
}

/// A time-locked transfer presented before its unlock time is turned away for
/// that reason, whatever the balances are; from the unlock time on it passes
/// validation.
pub proof fn lemma_timelock_admission(l: BlockchainView, tx: TransactionView, now: Timestamp)
    requires
        tx.tx_type is TimeLocked,
    ensures
        now.precedes(tx.tx_type->unlock_time) ==> l.admission(tx, now) == Err::<
            (),
            LedgerErrorView,
        >(
            LedgerErrorView::InvalidTransaction(
                ValidationError::StillLocked { unlock_time: tx.tx_type->unlock_time },
            ),
        ),
        !now.precedes(tx.tx_type->unlock_time) ==> tx.tx_type.validate(now) is Ok,
{
}

/// What one transfer adds to the balance of `a`: the amount if `a` is paid,
/// less the amount if `a` pays and is not the genesis address.
pub open spec fn flow_of(t: TransactionTypeView, a: Seq<char>) -> int {
    (if t.recipient() == a {
        t.amount() as int
    } else {
        0
    }) - (if t.sender() == a && a != GENESIS_ADDRESS@ {
        t.amount() as int
    } else {
        0
    })
}

/// What the transfers of `txs` add to the balance of `a`, all told.
pub open spec fn net_flow(txs: Seq<TransactionView>, a: Seq<char>) -> int
    decreases txs.len(),
{
    if txs.len() == 0 {
        0
    } else {
        net_flow(txs.drop_last(), a) + flow_of(txs.last().tx_type, a)
    }
}

/// The amount that the transfers of `txs` bring into the ledger: the sum of
/// the amounts that the genesis address sends.
pub open spec fn minted(txs: Seq<TransactionView>) -> int
    decreases txs.len(),
{
    if txs.len() == 0 {
        0
    } else {
        minted(txs.drop_last()) + if txs.last().tx_type.sender() == GENESIS_ADDRESS@ {
            txs.last().tx_type.amount() as int
        } else {
            0
        }
    }
}

/// The sum of all balances of a finite map.
pub open spec fn total(balances: Map<Seq<char>, int>) -> int
    decreases balances.dom().len(),
    when balances.dom().finite()
    via total_terminates
{
    if balances.dom().len() == 0 {
        0
    } else {
        let a = balances.dom().choose();
        balances[a] + total(balances.remove(a))
    }
}

#[via_fn]
proof fn total_terminates(balances: Map<Seq<char>, int>) {
    if balances.dom().len() != 0 {
        let a = balances.dom().choose();
        assert(balances.remove(a).dom() =~= balances.dom().remove(a));
    }
}

/// The sum of all balances is the balance of any one address plus the sum of
/// the others.
pub proof fn lemma_total_split(balances: Map<Seq<char>, int>, a: Seq<char>)
    requires
        balances.dom().finite(),
        balances.contains_key(a),
    ensures
        total(balances) == balances[a] + total(balances.remove(a)),
    decreases balances.dom().len(),
{
    let c = balances.dom().choose();
    assert(balances.dom().len() != 0) by {
        if balances.dom().len() == 0 {
            balances.dom().lemma_len0_is_empty();
        }
    }
    assert(balances.remove(c).dom() =~= balances.dom().remove(c));
    assert(balances.remove(a).dom() =~= balances.dom().remove(a));
    if c != a {
        lemma_total_split(balances.remove(c), a);
        lemma_total_split(balances.remove(a), c);
        assert(balances.remove(c).remove(a) =~= balances.remove(a).remove(c));
    }
}

/// Setting one balance changes the sum by the change of that balance.
pub proof fn lemma_total_insert(balances: Map<Seq<char>, int>, a: Seq<char>, v: int)
    requires
        balances.dom().finite(),
    ensures
        balances.insert(a, v).dom().finite(),
        total(balances.insert(a, v)) == total(balances) - balance_at(balances, a) + v,
{
    let after = balances.insert(a, v);
    assert(after.dom() =~= balances.dom().insert(a));
    lemma_total_split(after, a);
    if balances.contains_key(a) {
        lemma_total_split(balances, a);
        assert(after.remove(a) =~= balances.remove(a));
    } else {
        assert(after.remove(a) =~= balances);
    }
}

/// After a batch of transfers every balance is what it was plus what the batch
/// adds to it.
pub proof fn lemma_settle_per_address(
    balances: Map<Seq<char>, int>,
    txs: Seq<TransactionView>,
    a: Seq<char>,
)
    ensures
        balance_at(settle(balances, txs), a) == balance_at(balances, a) + net_flow(txs, a),
    decreases txs.len(),
{
    if txs.len() > 0 {
        lemma_settle_per_address(balances, txs.drop_last(), a);
    }
}

/// Conservation: a batch of transfers changes the sum of all balances by
/// exactly what the genesis address sends. What any other sender pays is what
/// its recipient gains, also where a sender pays more than it holds.
pub proof fn lemma_settle_conserves(balances: Map<Seq<char>, int>, txs: Seq<TransactionView>)
    requires
        balances.dom().finite(),
    ensures
        settle(balances, txs).dom().finite(),
        total(settle(balances, txs)) == total(balances) + minted(txs),
    decreases txs.len(),
{
    if txs.len() > 0 {
        lemma_settle_conserves(balances, txs.drop_last());
        let before = settle(balances, txs.drop_last());
        let t = txs.last().tx_type;
        if t.sender() == GENESIS_ADDRESS@ {
            lemma_total_insert(before, t.recipient(), balance_at(before, t.recipient()) + t.amount());
        } else {
            let debited = before.insert(t.sender(), balance_at(before, t.sender()) - t.amount());
            lemma_total_insert(before, t.sender(), balance_at(before, t.sender()) - t.amount());
            lemma_total_insert(
                debited,
                t.recipient(),
                balance_at(debited, t.recipient()) + t.amount(),
            );
        }
    }
}

/// One operation on a ledger.
pub enum Step {
    /// A transaction is submitted at time `now`.
    Submit { tx: TransactionView, now: Timestamp },
    /// A mining cycle runs at time `now` and ends at nonce `nonce`.
    Mine { now: Timestamp, nonce: u64 },
    /// The signers of a wallet are registered.
    Register { wallet: Seq<char>, signers: Seq<Seq<char>> },
}

/// The ledger after one operation. A submission changes the ledger only if the
/// transaction is admitted; a mining cycle only if the pool is not empty and
/// `nonce` is the first that seals the block.
pub open spec fn step(l: BlockchainView, s: Step) -> BlockchainView {
    match s {
        Step::Submit { tx, now } => if l.admission(tx, now) is Ok {
            l.with_pending(tx)
        } else {
            l
        },
        Step::Mine { now, nonce } => if l.pending_transactions.len() > 0 && l.candidate(
            now,
        ).is_first_solution(0, nonce, l.difficulty as nat) {
            l.after_mining(now, nonce)
        } else {
            l
        },
        Step::Register { wallet, signers } => l.with_wallet(wallet, signers),
    }
}

/// The ledger after a sequence of operations.
pub open spec fn run(l: BlockchainView, steps: Seq<Step>) -> BlockchainView
    decreases steps.len(),
{
    if steps.len() == 0 {
        l
    } else {
        step(run(l, steps.drop_last()), steps.last())
    }
}

/// One operation keeps a valid, non-empty chain valid and non-empty, and never
/// changes a block that is already in the chain.
pub proof fn lemma_step_keeps_valid(l: BlockchainView, s: Step)
    requires
        l.valid(),
        l.chain.len() >= 1,
    ensures
        step(l, s).valid(),
        step(l, s).chain.len() >= l.chain.len(),
        step(l, s).difficulty == l.difficulty,
        forall|i: int| 0 <= i < l.chain.len() ==> step(l, s).chain[i] == l.chain[i],
{
    match s {
        Step::Mine { now, nonce } => {
            if l.pending_transactions.len() > 0 && l.candidate(now).is_first_solution(
                0,
                nonce,
                l.difficulty as nat,
            ) {
                let b = l.candidate(now).with_nonce(nonce);
                lemma_with_nonce_seals(l.candidate(now), nonce);
                lemma_append_keeps_valid(l.chain, b, l.difficulty as nat);
            }
        },
        _ => {},
    }
}

/// A ledger as it is created, and every ledger that operations lead to from
/// there, has a valid chain: verification of an untampered chain always
/// succeeds. Its first block is the one it was created with.
pub proof fn lemma_history_is_valid(difficulty: usize, now: Timestamp, n: u64, steps: Seq<Step>)
    ensures
        run(BlockchainView::created(difficulty, now, n), steps).valid(),
        run(BlockchainView::created(difficulty, now, n), steps).chain.len() >= 1,
        run(BlockchainView::created(difficulty, now, n), steps).difficulty == difficulty,
        run(BlockchainView::created(difficulty, now, n), steps).chain[0]
            == BlockchainView::genesis_candidate(now).with_nonce(n),
    decreases steps.len(),
{
    let start = BlockchainView::created(difficulty, now, n);
    if steps.len() > 0 {
        lemma_history_is_valid(difficulty, now, n, steps.drop_last());
        lemma_step_keeps_valid(run(start, steps.drop_last()), steps.last());
    }
}

/// The amount that the blocks of `chain` have brought into the ledger.
pub open spec fn minted_in(chain: Seq<BlockView>) -> int
    decreases chain.len(),
{
    if chain.len() == 0 {
        0
    } else {
        minted_in(chain.drop_last()) + minted(chain.last().transactions)
    }
}

/// In a ledger as it is created, and in every ledger that operations lead to
/// from there, the balances add up to exactly what the genesis address has
/// sent in the blocks of the chain.
pub proof fn lemma_history_conserves(difficulty: usize, now: Timestamp, n: u64, steps: Seq<Step>)
    ensures
        run(BlockchainView::created(difficulty, now, n), steps).balances.dom().finite(),
        total(run(BlockchainView::created(difficulty, now, n), steps).balances) == minted_in(
            run(BlockchainView::created(difficulty, now, n), steps).chain,
        ),
    decreases steps.len(),
{
    let start = BlockchainView::created(difficulty, now, n);
    if steps.len() == 0 {
        let first = start.chain[0];
        assert(start.chain.drop_last() =~= Seq::empty());
        assert(first.transactions.drop_last() =~= Seq::empty());
        assert(minted_in(start.chain.drop_last()) == 0);
        assert(minted(first.transactions.drop_last()) == 0);
        assert(minted(first.transactions) == 0);
        assert(start.balances.dom() =~= Set::empty());
    } else {
        lemma_history_conserves(difficulty, now, n, steps.drop_last());
        let l = run(start, steps.drop_last());
        match steps.last() {
            Step::Mine { now: at, nonce } => {
                if l.pending_transactions.len() > 0 && l.candidate(at).is_first_solution(
                    0,
                    nonce,
                    l.difficulty as nat,
                ) {
                    let b = l.candidate(at).with_nonce(nonce);
                    lemma_settle_conserves(l.balances, l.pending_transactions);
                    assert(l.chain.push(b).drop_last() =~= l.chain);
                }
            },
            _ => {},
        }
    }
}

/// Two different messages have the same SHA-256 digest.
pub open spec fn sha256_collision(x: Seq<u8>, y: Seq<u8>) -> bool {
    x != y && sha256_of(x) == sha256_of(y)
}

/// Tampering with a block after the first is detected.
///
/// `forged` stands in place of the block at position `i` of a valid chain and
/// differs from it, and its hash was not recomputed: either the stored hash is
/// as it was, or the stored hash is all that changed. Then the chain is no
/// longer valid. One case is left out: a forgery that keeps hash and previous
/// hash and whose encoded contents collide with the original's under SHA-256.
pub proof fn lemma_tampering_is_detected(chain: Seq<BlockView>, d: nat, i: int, forged: BlockView)
    requires
        chain_valid(chain, d),
        1 <= i < chain.len(),
        block_fits(chain[i]),
        block_fits(forged),
        forged != chain[i],
        forged.hash == chain[i].hash || (forged.same_content(chain[i]) && forged.nonce
            == chain[i].nonce),
        forged.hash == chain[i].hash && forged.previous_hash == chain[i].previous_hash
            ==> !sha256_collision(block_preimage(forged), block_preimage(chain[i])),
    ensures
        !chain_valid(chain.update(i, forged), d),
{
    let tampered = chain.update(i, forged);
    assert(link_holds(chain, i, d));
    if forged.hash == chain[i].hash && forged.previous_hash == chain[i].previous_hash {
        if forged.digest() == chain[i].digest() {
            lemma_hex_injective(
                sha256_of(block_preimage(forged)),
                sha256_of(block_preimage(chain[i])),
            );
            lemma_block_preimage_injective(forged, chain[i]);
        }
    }
    assert(!link_holds(tampered, i, d));
}

/// A block that names another previous hash than the block it replaces is
/// detected even if its own hash was recomputed.
pub proof fn lemma_broken_link_is_detected(
    chain: Seq<BlockView>,
    d: nat,
    i: int,
    forged: BlockView,
)
    requires
        chain_valid(chain, d),
        1 <= i < chain.len(),
        forged.previous_hash != chain[i].previous_hash,
    ensures
        !chain_valid(chain.update(i, forged), d),
{
    let tampered = chain.update(i, forged);
    assert(link_holds(chain, i, d));
    assert(!link_holds(tampered, i, d));
}

/// A block whose hash changed breaks the link of the block after it, however
/// well the changed block itself is sealed.
pub proof fn lemma_rehashed_block_breaks_next_link(
    chain: Seq<BlockView>,
    d: nat,
    i: int,
    forged: BlockView,
)
    requires
        chain_valid(chain, d),
        0 <= i < chain.len() - 1,
        forged.hash != chain[i].hash,
    ensures
        !chain_valid(chain.update(i, forged), d),
{
    let tampered = chain.update(i, forged);
    assert(link_holds(chain, i + 1, d));
    assert(!link_holds(tampered, i + 1, d));
}

} // verus!
