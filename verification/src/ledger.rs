//! The ledger: the chain, the pool of admitted transactions, the balances and
//! the registry of multi-signature wallets.

use crate::block::{lemma_with_nonce_seals, meets_difficulty, meets_target, Block, BlockView};
use crate::time::{current_time, Timestamp};
use crate::transaction::{
    Transaction, TransactionType, TransactionTypeView, TransactionView, ValidationError,
};
use vstd::hash_map::StringHashMap;
use vstd::prelude::*;

verus! {

/// The reserved address that funds enter the ledger from. Its balance is never
/// checked and never debited.
pub const GENESIS_ADDRESS: &'static str = "genesis";

/// What the first block names as the hash before it.
pub const GENESIS_PREVIOUS_HASH: &'static str = "0";

/// The number of transactions that a ledger can record. Below it no balance can
/// leave the range of the integers that hold it.
pub const MAX_TRANSACTIONS: u64 = 0x4000_0000_0000_0000;

/// One more than the largest amount that a transfer can move.
pub const AMOUNT_SPAN: u128 = 0x1_0000_0000_0000_0000;

/// Why the ledger turned a transaction away.
#[derive(Debug, Clone, PartialEq, Eq)]
pub enum LedgerError {
    /// The transaction did not pass its own validation.
    InvalidTransaction(ValidationError),
    /// The sender's balance, as it stood at submission, is below the amount.
    InsufficientBalance { address: String, balance: i128 },
}

/// The mathematical value of a [`LedgerError`].
pub enum LedgerErrorView {
    InvalidTransaction(ValidationError),
    InsufficientBalance { address: Seq<char>, balance: int },
}

impl View for LedgerError {
    type V = LedgerErrorView;

    open spec fn view(&self) -> LedgerErrorView {
        match *self {
            LedgerError::InvalidTransaction(e) => LedgerErrorView::InvalidTransaction(e),
            LedgerError::InsufficientBalance {
                address,
                balance,
            } => LedgerErrorView::InsufficientBalance { address: address@, balance: balance as int },
        }
    }
}

/// The balance of `address`: what the map holds for it, or 0 if it holds
/// nothing.
pub open spec fn balance_at(balances: Map<Seq<char>, int>, address: Seq<char>) -> int {
    if balances.contains_key(address) {
        balances[address]
    } else {
        0
    }
}

/// The balances after one transfer: unless the sender is the genesis address,
/// the amount leaves the sender's balance; then the amount enters the
/// recipient's balance. Either balance starts at 0 if the map held none.
pub open spec fn settle_one(balances: Map<Seq<char>, int>, t: TransactionTypeView) -> Map<
    Seq<char>,
    int,
> {
    let debited = if t.sender() == GENESIS_ADDRESS@ {
        balances
    } else {
        balances.insert(t.sender(), balance_at(balances, t.sender()) - t.amount())
    };
    debited.insert(t.recipient(), balance_at(debited, t.recipient()) + t.amount())
}

/// The balances after the transfers of `txs`, applied one after another in
/// order.
pub open spec fn settle(balances: Map<Seq<char>, int>, txs: Seq<TransactionView>) -> Map<
    Seq<char>,
    int,
>
    decreases txs.len(),
{
    if txs.len() == 0 {
        balances
    } else {
        settle_one(settle(balances, txs.drop_last()), txs.last().tx_type)
    }
}

/// The number of transactions that the blocks of `chain` hold.
pub open spec fn recorded(chain: Seq<BlockView>) -> nat
    decreases chain.len(),
{
    if chain.len() == 0 {
        0
    } else {
        recorded(chain.drop_last()) + chain.last().transactions.len()
    }
}

/// No balance is further from 0 than `k` transfers of the largest amount could
/// have brought it.
pub open spec fn within_reach(balances: Map<Seq<char>, int>, k: int) -> bool {
    forall|a: Seq<char>| #[trigger]
        balances.contains_key(a) ==> -(k * AMOUNT_SPAN) <= balances[a] <= k * AMOUNT_SPAN
}

/// The block at position `i` of `chain` passes the three checks of chain
/// verification: its hash is the one its contents call for, it names the hash
/// of the block before it, and its hash meets difficulty `d`.
pub open spec fn link_holds(chain: Seq<BlockView>, i: int, d: nat) -> bool {
    &&& chain[i].sealed()
    &&& chain[i].previous_hash == chain[i - 1].hash
    &&& meets_difficulty(chain[i].hash, d)
}

/// Every block after the first passes the three checks. The first block is not
/// examined.
pub open spec fn chain_valid(chain: Seq<BlockView>, d: nat) -> bool {
    forall|i: int| 1 <= i < chain.len() ==> #[trigger] link_holds(chain, i, d)
}

/// The integers that a map of balances holds, as mathematical integers.
pub open spec fn balances_model(balances: Map<Seq<char>, i128>) -> Map<Seq<char>, int> {
    Map::new(|a: Seq<char>| balances.contains_key(a), |a: Seq<char>| balances[a] as int)
}

/// The signer lists that a wallet registry holds, as sequences of texts.
pub open spec fn wallets_model(wallets: Map<Seq<char>, Vec<String>>) -> Map<
    Seq<char>,
    Seq<Seq<char>>,
> {
    Map::new(|w: Seq<char>| wallets.contains_key(w), |w: Seq<char>| wallets[w].deep_view())
}

/// The ledger.
pub struct Blockchain {
    /// The blocks, oldest first. Blocks are only ever appended.
    pub chain: Vec<Block>,
    /// The number of leading zero digits that every mined hash must have.
    pub difficulty: usize,
    /// The admitted transactions that no block holds yet, oldest first.
    pub pending_transactions: Vec<Transaction>,
    /// The balance of every address that a mined transfer has touched.
    pub balances: StringHashMap<i128>,
    /// The signers registered for each wallet. Nothing is checked against it.
    pub multisig_wallets: StringHashMap<Vec<String>>,
}

/// The mathematical value of a [`Blockchain`].
pub struct BlockchainView {
    pub chain: Seq<BlockView>,
    pub difficulty: usize,
    pub pending_transactions: Seq<TransactionView>,
    pub balances: Map<Seq<char>, int>,
    pub multisig_wallets: Map<Seq<char>, Seq<Seq<char>>>,
}

impl View for Blockchain {
    type V = BlockchainView;

    open spec fn view(&self) -> BlockchainView {
        BlockchainView {
            chain: self.chain.deep_view(),
            difficulty: self.difficulty,
            pending_transactions: self.pending_transactions.deep_view(),
            balances: balances_model(self.balances@),
            multisig_wallets: wallets_model(self.multisig_wallets@),
        }
    }
}

impl BlockchainView {
    /// The transaction that the first block holds: a transfer of nothing from
    /// the genesis address to itself, created at `now` with sequence number 0.
    pub open spec fn genesis_transaction(now: Timestamp) -> TransactionView {
        TransactionView::created(
            TransactionTypeView::Standard {
                from: GENESIS_ADDRESS@,
                to: GENESIS_ADDRESS@,
                amount: 0,
            },
            now,
            0,
        )
    }

    /// The first block as it is built at `now`, before the search for a nonce.
    pub open spec fn genesis_candidate(now: Timestamp) -> BlockView {
        BlockView::fresh(0, now, seq![Self::genesis_transaction(now)], GENESIS_PREVIOUS_HASH@)
    }

    /// The ledger as it is created at `now`, its first block sealed with nonce
    /// `n`: that block alone, no pending transaction, no balance, no wallet.
    pub open spec fn created(difficulty: usize, now: Timestamp, n: u64) -> BlockchainView {
        BlockchainView {
            chain: seq![Self::genesis_candidate(now).with_nonce(n)],
            difficulty,
            pending_transactions: Seq::empty(),
            balances: Map::empty(),
            multisig_wallets: Map::empty(),
        }
    }

    /// The chain holds a block, and no balance is further from 0 than the
    /// recorded transactions could have brought it.
    pub open spec fn well_formed(self) -> bool {
        &&& self.chain.len() >= 1
        &&& within_reach(self.balances, recorded(self.chain) as int)
    }

    /// The pending transactions can be recorded without passing the limit on
    /// their number.
    pub open spec fn has_room(self) -> bool {
        recorded(self.chain) + self.pending_transactions.len() <= MAX_TRANSACTIONS
    }

    /// Every block after the first passes the checks of chain verification.
    pub open spec fn valid(self) -> bool {
        chain_valid(self.chain, self.difficulty as nat)
    }

    /// The verdict on a transaction submitted at `now`: the transaction's own
    /// validation comes first; then, unless the sender is the genesis address,
    /// the sender's present balance must cover the amount.
    pub open spec fn admission(self, tx: TransactionView, now: Timestamp) -> Result<
        (),
        LedgerErrorView,
    > {
        match tx.tx_type.validate(now) {
            Err(e) => Err(LedgerErrorView::InvalidTransaction(e)),
            Ok(_) => {
                let sender = tx.tx_type.sender();
                if sender != GENESIS_ADDRESS@ && balance_at(self.balances, sender)
                    < tx.tx_type.amount() {
                    Err(
                        LedgerErrorView::InsufficientBalance {
                            address: sender,
                            balance: balance_at(self.balances, sender),
                        },
                    )
                } else {
                    Ok(())
                }
            },
        }
    }

    /// The ledger with `tx` added at the end of the pool.
    pub open spec fn with_pending(self, tx: TransactionView) -> BlockchainView {
        BlockchainView { pending_transactions: self.pending_transactions.push(tx), ..self }
    }

    /// The block that a mining cycle at `now` builds before the search for a
    /// nonce: it holds the whole pool in order and is linked to the last block.
    pub open spec fn candidate(self, now: Timestamp) -> BlockView {
        BlockView::fresh(
            self.chain.len() as u64,
            now,
            self.pending_transactions,
            self.chain.last().hash,
        )
    }

    /// The ledger after a mining cycle at `now` that sealed the block with nonce
    /// `n`: the block is appended, the pool is empty, and the pool's transfers
    /// have been applied to the balances in order.
    pub open spec fn after_mining(self, now: Timestamp, n: u64) -> BlockchainView {
        BlockchainView {
            chain: self.chain.push(self.candidate(now).with_nonce(n)),
            pending_transactions: Seq::empty(),
            balances: settle(self.balances, self.pending_transactions),
            ..self
        }
    }

    /// The ledger with the signers of `wallet` set to `signers`.
    pub open spec fn with_wallet(self, wallet: Seq<char>, signers: Seq<Seq<char>>) -> BlockchainView {
        BlockchainView { multisig_wallets: self.multisig_wallets.insert(wallet, signers), ..self }
    }
}

/// What a submission returned carries the verdict `verdict`: success for
/// success, and for a failure the same error.
pub open spec fn carries(result: Result<(), LedgerError>, verdict: Result<(), LedgerErrorView>) -> bool {
    match result {
        Ok(_) => verdict is Ok,
        Err(e) => verdict == Err::<(), LedgerErrorView>(e@),
    }
}

/// Tells whether `address` is the genesis address.
pub fn is_genesis(address: &String) -> (r: bool)
    ensures
        r == (address@ == GENESIS_ADDRESS@),
{
    let sentinel = GENESIS_ADDRESS.to_owned();
    *address == sentinel
}

/// Reads the balance of `address` from `balances`: 0 where the map holds none.
pub fn lookup_balance(balances: &StringHashMap<i128>, address: &str) -> (balance: i128)
    ensures
        balance == balance_at(balances_model(balances@), address@),
{
    match balances.get(address) {
        Some(b) => *b,
        None => 0,
    }
}

/// One more transfer moves no balance further than one more step of the
/// largest amount.
pub proof fn lemma_settle_one_within_reach(
    balances: Map<Seq<char>, int>,
    t: TransactionTypeView,
    k: int,
)
    requires
        0 <= k,
        within_reach(balances, k),
    ensures
        within_reach(settle_one(balances, t), k + 1),
{
    let after = settle_one(balances, t);
    let near = k * AMOUNT_SPAN;
    let far = (k + 1) * AMOUNT_SPAN;
    assert forall|a: Seq<char>| #[trigger] after.contains_key(a) implies -far <= after[a]
        <= far by {
        if balances.contains_key(a) {
            assert(-near <= balances[a] <= near);
        }
        if balances.contains_key(t.sender()) {
            assert(-near <= balances[t.sender()] <= near);
        }
        if balances.contains_key(t.recipient()) {
            assert(-near <= balances[t.recipient()] <= near);
        }
    }
}

/// A valid chain stays valid when a block is appended that is sealed, names
/// the hash of the last block and meets the difficulty.
pub proof fn lemma_append_keeps_valid(chain: Seq<BlockView>, b: BlockView, d: nat)
    requires
        chain_valid(chain, d),
        chain.len() >= 1,
        b.sealed(),
        b.previous_hash == chain.last().hash,
        meets_difficulty(b.hash, d),
    ensures
        chain_valid(chain.push(b), d),
{
    let longer = chain.push(b);
    assert forall|i: int| 1 <= i < longer.len() implies #[trigger] link_holds(longer, i, d) by {
        if i < chain.len() {
            assert(link_holds(chain, i, d));
        }
    }
}

/// Appending a block adds its transactions to the number recorded.
pub proof fn lemma_recorded_push(chain: Seq<BlockView>, b: BlockView)
    ensures
        recorded(chain.push(b)) == recorded(chain) + b.transactions.len(),
{
    assert(chain.push(b).drop_last() == chain);
}

/// A part of the chain from its start records no more than the whole chain.
pub proof fn lemma_recorded_prefix(chain: Seq<BlockView>, i: int)
    requires
        0 <= i <= chain.len(),
    ensures
        recorded(chain.take(i)) <= recorded(chain),
    decreases chain.len(),
{
    if i < chain.len() {
        lemma_recorded_prefix(chain.drop_last(), i);
        assert(chain.drop_last().take(i) == chain.take(i));
    } else {
        assert(chain.take(i) == chain);
    }
}

/// Applies the transfers of `txs` to `balances`, one after another in order.
fn settle_batch(balances: &mut StringHashMap<i128>, txs: &Vec<Transaction>, Ghost(k): Ghost<int>)
    requires
        0 <= k,
        within_reach(balances_model(old(balances)@), k),
        k + txs.len() <= MAX_TRANSACTIONS,
    ensures
        balances_model(final(balances)@) == settle(
            balances_model(old(balances)@),
            txs.deep_view(),
        ),
        within_reach(balances_model(final(balances)@), k + txs.len()),
{
    let ghost start = balances_model(balances@);
    let mut i: usize = 0;
    while i < txs.len()
        invariant
            i <= txs.len(),
            0 <= k,
            k + txs.len() <= MAX_TRANSACTIONS,
            balances_model(balances@) == settle(start, txs.deep_view().take(i as int)),
            within_reach(balances_model(balances@), k + i),
        decreases txs.len() - i,
    {
        let ghost before = balances_model(balances@);
        let transfer = &txs[i].tx_type;
        let amount = transfer.amount() as i128;
        let from = transfer.sender();
        let to = transfer.recipient();
        proof {
            lemma_settle_one_within_reach(before, transfer@, k + i);
            let done = txs.deep_view().take(i + 1);
            assert(done.drop_last() == txs.deep_view().take(i as int));
            assert(done.last().tx_type == transfer@);
            let near = (k + i) * AMOUNT_SPAN;
            assert(before.contains_key(from@) ==> -near <= before[from@] <= near);
            assert(before.contains_key(to@) ==> -near <= before[to@] <= near);
        }
        if !is_genesis(from) {
            let held = lookup_balance(balances, from.as_str());
            balances.insert(from.clone(), held - amount);
        }
        let ghost debited = balances_model(balances@);
        proof {
            assert(debited =~= if transfer@.sender() == GENESIS_ADDRESS@ {
                before
            } else {
                before.insert(from@, balance_at(before, from@) - amount)
            });
        }
        let held = lookup_balance(balances, to.as_str());
        balances.insert(to.clone(), held + amount);
        proof {
            assert(balances_model(balances@) =~= settle_one(before, transfer@));
        }
        i += 1;
    }
    proof {
        assert(txs.deep_view().take(i as int) == txs.deep_view());
    }
}

impl Blockchain {
    /// Creates a ledger at the present time: see [`Blockchain::new_at`].
    ///
    /// The clock decides the timestamp of the first block and of its
    /// transaction; everything else is determined by it and the difficulty.
    pub fn new(difficulty: usize) -> (ledger: Option<Blockchain>)
        ensures
            match ledger {
                Some(l) => {
                    let first = l@.chain[0];
                    &&& l@ == BlockchainView::created(difficulty, first.timestamp, first.nonce)
                    &&& BlockchainView::genesis_candidate(first.timestamp).is_first_solution(
                        0,
                        first.nonce,
                        difficulty as nat,
                    )
                    &&& l@.chain.len() == 1
                    &&& first.previous_hash == GENESIS_PREVIOUS_HASH@
                    &&& meets_difficulty(first.hash, difficulty as nat)
                    &&& l@.valid()
                    &&& l@.well_formed()
                    &&& recorded(l@.chain) == 1
                },
                None => exists|now: Timestamp| #[trigger]
                    BlockchainView::genesis_candidate(now).unsolvable_from(0, difficulty as nat),
            },
    {
        let now = current_time();
        Blockchain::new_at(difficulty, now)
    }

    /// Creates a ledger at time `now`.
    ///
    /// The first block holds one transfer of nothing from the genesis address
    /// to itself and is sealed with the least nonce under which its hash meets
    /// `difficulty`. The new ledger holds that block alone. Returns `None`
    /// exactly when no nonce seals the block.
    pub fn new_at(difficulty: usize, now: Timestamp) -> (ledger: Option<Blockchain>)
        ensures
            match ledger {
                Some(l) => {
                    let first = l@.chain[0];
                    &&& l@ == BlockchainView::created(difficulty, now, first.nonce)
                    &&& BlockchainView::genesis_candidate(now).is_first_solution(
                        0,
                        first.nonce,
                        difficulty as nat,
                    )
                    &&& l@.chain.len() == 1
                    &&& first.previous_hash == GENESIS_PREVIOUS_HASH@
                    &&& meets_difficulty(first.hash, difficulty as nat)
                    &&& l@.valid()
                    &&& l@.well_formed()
                    &&& recorded(l@.chain) == 1
                },
                None => BlockchainView::genesis_candidate(now).unsolvable_from(
                    0,
                    difficulty as nat,
                ),
            },
    {
        let mut ledger = Blockchain {
            chain: Vec::new(),
            difficulty,
            pending_transactions: Vec::new(),
            balances: StringHashMap::new(),
            multisig_wallets: StringHashMap::new(),
        };
        if ledger.create_genesis_block(now) {
            proof {
                let first = ledger@.chain[0];
                assert(ledger@.chain =~= seq![first]);
                assert(ledger@.balances =~= Map::empty());
                assert(ledger@.multisig_wallets =~= Map::empty());
                assert(ledger@.pending_transactions =~= Seq::empty());
                assert(ledger@.chain.drop_last() =~= Seq::empty());
                assert(recorded(ledger@.chain.drop_last()) == 0);
                assert(recorded(ledger@.chain) == 1);
            }
            Some(ledger)
        } else {
            None
        }
    }

    /// Builds the first block at time `now`, seals it and appends it. Returns
    /// `false`, leaving the ledger as it was, when no nonce seals the block.
    fn create_genesis_block(&mut self, now: Timestamp) -> (mined: bool)
        requires
            old(self).chain@.len() == 0,
        ensures
            final(self).difficulty == old(self).difficulty,
            final(self).pending_transactions == old(self).pending_transactions,
            final(self).balances == old(self).balances,
            final(self).multisig_wallets == old(self).multisig_wallets,
            mined ==> {
                let first = final(self)@.chain[0];
                &&& final(self).chain@.len() == 1
                &&& first == BlockchainView::genesis_candidate(now).with_nonce(first.nonce)
                &&& BlockchainView::genesis_candidate(now).is_first_solution(
                    0,
                    first.nonce,
                    old(self).difficulty as nat,
                )
            },
            !mined ==> {
                &&& final(self).chain == old(self).chain
                &&& BlockchainView::genesis_candidate(now).unsolvable_from(
                    0,
                    old(self).difficulty as nat,
                )
            },
    {
        let genesis_transaction = Transaction::new_at(
            TransactionType::Standard {
                from: GENESIS_ADDRESS.to_owned(),
                to: GENESIS_ADDRESS.to_owned(),
                amount: 0,
            },
            now,
            0,
        );
        let mut transactions: Vec<Transaction> = Vec::new();
        transactions.push(genesis_transaction);
        let mut genesis_block = Block::new_at(
            0,
            now,
            transactions,
            GENESIS_PREVIOUS_HASH.to_owned(),
        );
        proof {
            assert(transactions.deep_view() =~= seq![BlockchainView::genesis_transaction(now)]);
            lemma_with_nonce_seals(genesis_block@, 0);
        }
        if !genesis_block.mine_block(self.difficulty) {
            return false;
        }
        self.chain.push(genesis_block);
        true
    }

    /// Runs a mining cycle at the present time: see
    /// [`Blockchain::mine_pending_transactions_at`].
    ///
    /// The clock decides the timestamp of the new block; everything else is
    /// determined by it and the ledger.
    pub fn mine_pending_transactions(&mut self) -> (mined: bool)
        requires
            old(self)@.well_formed(),
            old(self)@.has_room(),
        ensures
            final(self)@.well_formed(),
            final(self)@.has_room(),
            old(self)@.valid() ==> final(self)@.valid(),
            recorded(final(self)@.chain) + final(self)@.pending_transactions.len() == recorded(
                old(self)@.chain,
            ) + old(self)@.pending_transactions.len(),
            old(self)@.pending_transactions.len() == 0 ==> !mined,
            !mined ==> final(self)@ == old(self)@,
            !mined && old(self)@.pending_transactions.len() > 0 ==> exists|now: Timestamp| #[trigger]
                old(self)@.candidate(now).unsolvable_from(0, old(self)@.difficulty as nat),
            mined ==> {
                let last = final(self)@.chain.last();
                &&& old(self)@.candidate(last.timestamp).is_first_solution(
                    0,
                    last.nonce,
                    old(self)@.difficulty as nat,
                )
                &&& final(self)@ == old(self)@.after_mining(last.timestamp, last.nonce)
            },
    {
        let now = current_time();
        self.mine_pending_transactions_at(now)
    }

    /// Runs a mining cycle at time `now`.
    ///
    /// With an empty pool nothing happens. Otherwise a block is built that
    /// holds the whole pool in order, carries the chain's length as its index
    /// and names the hash of the last block; it is sealed with the least nonce
    /// under which its hash meets the ledger's difficulty; the pool's transfers
    /// are applied to the balances in order; the block is appended, and the
    /// pool is emptied. Returns whether a block was appended. If no nonce seals
    /// the block, the ledger is left as it was.
    pub fn mine_pending_transactions_at(&mut self, now: Timestamp) -> (mined: bool)
        requires
            old(self)@.well_formed(),
            old(self)@.has_room(),
        ensures
            final(self)@.well_formed(),
            final(self)@.has_room(),
            old(self)@.valid() ==> final(self)@.valid(),
            recorded(final(self)@.chain) + final(self)@.pending_transactions.len() == recorded(
                old(self)@.chain,
            ) + old(self)@.pending_transactions.len(),
            old(self)@.pending_transactions.len() == 0 ==> !mined && final(self)@ == old(self)@,
            old(self)@.pending_transactions.len() > 0 && mined ==> {
                let n = final(self)@.chain.last().nonce;
                &&& old(self)@.candidate(now).is_first_solution(
                    0,
                    n,
                    old(self)@.difficulty as nat,
                )
                &&& final(self)@ == old(self)@.after_mining(now, n)
            },
            old(self)@.pending_transactions.len() > 0 && !mined ==> {
                &&& old(self)@.candidate(now).unsolvable_from(0, old(self)@.difficulty as nat)
                &&& final(self)@ == old(self)@
            },
    {
        if self.pending_transactions.len() == 0 {
            return false;
        }
        let ghost before = self@;
        let previous_hash = self.chain[self.chain.len() - 1].hash.clone();
        let index = self.chain.len() as u64;
        let mut batch: Vec<Transaction> = Vec::new();
        core::mem::swap(&mut batch, &mut self.pending_transactions);
        let mut block = Block::new_at(index, now, batch, previous_hash);
        proof {
            assert(block@ == before.candidate(now));
            lemma_with_nonce_seals(block@, 0);
        }
        if !block.mine_block(self.difficulty) {
            self.pending_transactions = block.transactions;
            return false;
        }
        settle_batch(&mut self.balances, &block.transactions, Ghost(recorded(before.chain) as int));
        proof {
            lemma_with_nonce_seals(before.candidate(now), block.nonce);
            if before.valid() {
                lemma_append_keeps_valid(before.chain, block@, self.difficulty as nat);
            }
            lemma_recorded_push(before.chain, block@);
        }
        self.chain.push(block);
        proof {
            assert(final(self)@.chain =~= before.chain.push(block@));
            assert(final(self)@.pending_transactions =~= Seq::empty());
        }
        true
    }

    /// Tells whether the pending transactions can still be recorded: whether
    /// the transactions in the chain and in the pool together stay within
    /// [`MAX_TRANSACTIONS`].
    pub fn has_room(&self) -> (r: bool)
        ensures
            r == self@.has_room(),
    {
        let mut total: u64 = 0;
        let mut i: usize = 0;
        while i < self.chain.len()
            invariant
                i <= self.chain.len(),
                total == recorded(self@.chain.take(i as int)),
                total <= MAX_TRANSACTIONS,
            decreases self.chain.len() - i,
        {
            let held = self.chain[i].transactions.len() as u64;
            proof {
                let part = self@.chain.take(i + 1);
                assert(part.drop_last() == self@.chain.take(i as int));
                assert(part.last() == self.chain[i as int]@);
                lemma_recorded_prefix(self@.chain, i + 1);
            }
            if held > MAX_TRANSACTIONS - total {
                return false;
            }
            total = total + held;
            i += 1;
        }
        proof {
            assert(self@.chain.take(i as int) == self@.chain);
        }
        self.pending_transactions.len() as u64 <= MAX_TRANSACTIONS - total
    }

    /// Reads the balance of `address`: 0 for an address that no mined transfer
    /// has touched.
    pub fn get_balance(&self, address: &str) -> (balance: i128)
        ensures
            balance == balance_at(self@.balances, address@),
    {
        lookup_balance(&self.balances, address)
    }

    /// Registers `signers` as the signers of `wallet_id`, in place of any list
    /// registered before. No other operation reads the registry.
    pub fn create_multisig_wallet(&mut self, wallet_id: String, signers: Vec<String>)
        ensures
            final(self)@ == old(self)@.with_wallet(wallet_id@, signers.deep_view()),
    {
        self.multisig_wallets.insert(wallet_id, signers);
        proof {
            assert(final(self)@.multisig_wallets =~= old(self)@.multisig_wallets.insert(
                wallet_id@,
                signers.deep_view(),
            ));
        }
    }

    /// Submits a transaction at the present time.
    ///
    /// The clock decides the time at which a time lock is judged; whatever it
    /// says, the ledger either is unchanged or has gained exactly this
    /// transaction at the end of its pool.
    pub fn add_transaction(&mut self, transaction: Transaction) -> (result: Result<
        (),
        LedgerError,
    >)
        ensures
            match result {
                Ok(_) => final(self)@ == old(self)@.with_pending(transaction@),
                Err(_) => final(self)@ == old(self)@,
            },
            exists|now: Timestamp|
                carries(result, #[trigger] old(self)@.admission(transaction@, now)),
            !(transaction@.tx_type is TimeLocked) ==> forall|now: Timestamp|
                carries(result, #[trigger] old(self)@.admission(transaction@, now)),
    {
        let now = current_time();
        self.add_transaction_at(transaction, now)
    }

    /// Submits a transaction at time `now`.
    ///
    /// The transaction is admitted, and joins the end of the pool, exactly when
    /// it passes its own validation at `now` and its sender is the genesis
    /// address or holds at least the amount. Otherwise the ledger is unchanged
    /// and the error says which check failed, validation being judged first.
    /// The balance is the one on record now: amounts of transactions still in
    /// the pool are not set aside.
    pub fn add_transaction_at(&mut self, transaction: Transaction, now: Timestamp) -> (result:
        Result<(), LedgerError>)
        ensures
            carries(result, old(self)@.admission(transaction@, now)),
            match result {
                Ok(_) => final(self)@ == old(self)@.with_pending(transaction@),
                Err(_) => final(self)@ == old(self)@,
            },
    {
        match transaction.is_valid(now) {
            Err(e) => {
                return Err(LedgerError::InvalidTransaction(e));
            },
            Ok(_) => {},
        }
        let amount = transaction.tx_type.amount();
        let from = transaction.tx_type.sender();
        if !is_genesis(from) {
            let balance = lookup_balance(&self.balances, from.as_str());
            if balance < amount as i128 {
                return Err(LedgerError::InsufficientBalance { address: from.clone(), balance });
            }
        }
        self.pending_transactions.push(transaction);
        proof {
            assert(final(self)@.pending_transactions =~= old(self)@.pending_transactions.push(
                transaction@,
            ));
        }
        Ok(())
    }

    /// Verifies the chain: every block after the first must carry the hash that
    /// its contents call for, name the hash of the block before it, and meet
    /// the ledger's difficulty. The first block is not examined.
    pub fn is_chain_valid(&self) -> (ok: bool)
        ensures
            ok == self@.valid(),
    {
        let mut i: usize = 1;
        while i < self.chain.len()
            invariant
                1 <= i,
                forall|j: int|
                    1 <= j < i && j < self.chain.len() ==> #[trigger] link_holds(
                        self@.chain,
                        j,
                        self.difficulty as nat,
                    ),
            decreases self.chain.len() - i,
        {
            let current = &self.chain[i];
            let previous = &self.chain[i - 1];
            let expected = current.calculate_hash();
            let intact = current.hash == expected;
            let linked = current.previous_hash == previous.hash;
            if !intact || !linked || !meets_target(&current.hash, self.difficulty) {
                proof {
                    assert(!link_holds(self@.chain, i as int, self.difficulty as nat));
                }
                return false;
            }
            i += 1;
        }
        true
    }
}

} // verus!
