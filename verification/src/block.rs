//! Blocks: a batch of transactions, the link to the block before, and the
//! proof-of-work search that seals them.

use crate::digest::{hash_hex, hash_hex_of};
use crate::encoding::{block_fits, block_preimage, encode_block_preimage};
use crate::time::{current_time, Timestamp};
use crate::transaction::{Transaction, TransactionView};
use vstd::prelude::*;

verus! {

/// A block of the chain.
#[derive(Debug, Clone, PartialEq, Eq)]
pub struct Block {
    /// The position in the chain; the first block has index 0.
    pub index: u64,
    /// The time at which the block was built.
    pub timestamp: Timestamp,
    /// The transactions, in the order in which they were admitted.
    pub transactions: Vec<Transaction>,
    /// The hash of the block before this one.
    pub previous_hash: String,
    /// The hash of this block.
    pub hash: String,
    /// The counter that the proof-of-work search advances.
    pub nonce: u64,
}

/// The mathematical value of a [`Block`].
pub struct BlockView {
    pub index: u64,
    pub timestamp: Timestamp,
    pub transactions: Seq<TransactionView>,
    pub previous_hash: Seq<char>,
    pub hash: Seq<char>,
    pub nonce: u64,
}

/// A hash meets difficulty `d` when its first `d` characters exist and are all
/// the digit zero.
pub open spec fn meets_difficulty(hash: Seq<char>, d: nat) -> bool {
    d <= hash.len() && forall|i: int| 0 <= i < d ==> hash[i] == '0'
}

impl BlockView {
    /// The hash that the block's contents call for: the hexadecimal SHA-256
    /// digest of the encoded index, timestamp, transactions, previous hash and
    /// nonce.
    pub open spec fn digest(self) -> Seq<char> {
        hash_hex_of(block_preimage(self))
    }

    /// The stored hash is the one that the contents call for.
    pub open spec fn sealed(self) -> bool {
        self.hash == self.digest()
    }

    /// The same block with nonce `n`, hashed anew.
    pub open spec fn with_nonce(self, n: u64) -> BlockView {
        BlockView { nonce: n, hash: BlockView { nonce: n, ..self }.digest(), ..self }
    }

    /// A block as it is first built: nonce 0, and the hash that goes with it.
    pub open spec fn fresh(
        index: u64,
        timestamp: Timestamp,
        transactions: Seq<TransactionView>,
        previous_hash: Seq<char>,
    ) -> BlockView {
        BlockView {
            index,
            timestamp,
            transactions,
            previous_hash,
            hash: Seq::empty(),
            nonce: 0,
        }.with_nonce(0)
    }

    /// Everything but nonce and hash is the same in both blocks.
    pub open spec fn same_content(self, other: BlockView) -> bool {
        &&& self.index == other.index
        &&& self.timestamp == other.timestamp
        &&& self.transactions == other.transactions
        &&& self.previous_hash == other.previous_hash
    }

    /// With nonce `n` the block's hash meets difficulty `d`.
    pub open spec fn solves(self, n: u64, d: nat) -> bool {
        meets_difficulty(self.with_nonce(n).hash, d)
    }

    /// `n` is the least nonce from `from` on that solves the puzzle.
    pub open spec fn is_first_solution(self, from: int, n: u64, d: nat) -> bool {
        &&& from <= n
        &&& self.solves(n, d)
        &&& forall|m: u64| from <= m < n ==> !#[trigger] self.solves(m, d)
    }

    /// No nonce from `from` on solves the puzzle.
    pub open spec fn unsolvable_from(self, from: int, d: nat) -> bool {
        forall|m: u64| from <= m ==> !#[trigger] self.solves(m, d)
    }
}

impl View for Block {
    type V = BlockView;

    open spec fn view(&self) -> BlockView {
        BlockView {
            index: self.index,
            timestamp: self.timestamp,
            transactions: self.transactions.deep_view(),
            previous_hash: self.previous_hash@,
            hash: self.hash@,
            nonce: self.nonce,
        }
    }
}

impl DeepView for Block {
    type V = BlockView;

    open spec fn deep_view(&self) -> BlockView {
        self@
    }
}

/// Hashing a block anew under any nonce seals it, and hashing a sealed block
/// anew under its own nonce changes nothing.
pub proof fn lemma_with_nonce_seals(b: BlockView, n: u64)
    ensures
        b.with_nonce(n).sealed(),
        b.with_nonce(n).same_content(b),
        b.with_nonce(n).nonce == n,
        b.sealed() ==> b.with_nonce(b.nonce) == b,
{
}

/// Tells whether `hash` starts with at least `difficulty` zero digits.
pub fn meets_target(hash: &String, difficulty: usize) -> (r: bool)
    ensures
        r == meets_difficulty(hash@, difficulty as nat),
{
    let text = hash.as_str();
    if text.unicode_len() < difficulty {
        return false;
    }
    let mut i: usize = 0;
    while i < difficulty
        invariant
            i <= difficulty <= text@.len(),
            text@ == hash@,
            forall|j: int| 0 <= j < i ==> hash@[j] == '0',
        decreases difficulty - i,
    {
        if text.get_char(i) != '0' {
            return false;
        }
        i += 1;
    }
    true
}

impl Block {
    /// Builds a block stamped with the present time, with nonce 0 and the hash
    /// that goes with it.
    ///
    /// The clock decides the timestamp; everything else is determined by it and
    /// the arguments.
    pub fn new(index: u64, transactions: Vec<Transaction>, previous_hash: String) -> (b: Block)
        ensures
            b@ == BlockView::fresh(index, b.timestamp, transactions.deep_view(), previous_hash@),
    {
        let timestamp = current_time();
        Block::new_at(index, timestamp, transactions, previous_hash)
    }

    /// Builds a block stamped with `timestamp`, with nonce 0 and the hash that
    /// goes with it.
    pub fn new_at(
        index: u64,
        timestamp: Timestamp,
        transactions: Vec<Transaction>,
        previous_hash: String,
    ) -> (b: Block)
        ensures
            b@ == BlockView::fresh(index, timestamp, transactions.deep_view(), previous_hash@),
    {
        let mut block = Block {
            index,
            timestamp,
            transactions,
            previous_hash,
            hash: String::new(),
            nonce: 0,
        };
        block.hash = block.calculate_hash();
        block
    }

    /// Computes the hash that the block's contents call for. The stored hash is
    /// neither read nor changed, so the result depends on the index, the
    /// timestamp, the transactions, the previous hash and the nonce alone.
    pub fn calculate_hash(&self) -> (hash: String)
        ensures
            hash@ == self@.digest(),
            block_fits(self@),
    {
        let preimage = encode_block_preimage(self);
        hash_hex(&preimage)
    }

    /// Searches for a nonce under which the hash meets `difficulty`.
    ///
    /// If the stored hash already meets the difficulty, nothing changes.
    /// Otherwise the nonce is advanced one by one, the hash being recomputed
    /// each time, and the search stops at the first nonce that solves the
    /// puzzle. Returns whether the block now meets the difficulty; `false` means
    /// that every nonce up to the largest was tried in vain, and the block is
    /// left at that nonce.
    pub fn mine_block(&mut self, difficulty: usize) -> (mined: bool)
        ensures
            final(self)@.same_content(old(self)@),
            mined == meets_difficulty(final(self)@.hash, difficulty as nat),
            difficulty == 0 ==> mined,
            meets_difficulty(old(self)@.hash, difficulty as nat) ==> final(self)@ == old(self)@,
            !meets_difficulty(old(self)@.hash, difficulty as nat) && mined ==> {
                &&& final(self)@ == old(self)@.with_nonce(final(self).nonce)
                &&& old(self)@.is_first_solution(
                    old(self).nonce + 1,
                    final(self).nonce,
                    difficulty as nat,
                )
            },
            !mined ==> {
                &&& old(self)@.unsolvable_from(old(self).nonce + 1, difficulty as nat)
                &&& final(self).nonce == u64::MAX
                &&& old(self).nonce < u64::MAX ==> final(self)@ == old(self)@.with_nonce(u64::MAX)
                &&& old(self).nonce == u64::MAX ==> final(self)@ == old(self)@
            },
    {
        let ghost start = self@;
        if meets_target(&self.hash, difficulty) {
            return true;
        }
        while self.nonce < u64::MAX
            invariant
                start == old(self)@,
                self@.same_content(start),
                start.nonce <= self.nonce,
                self.nonce == start.nonce ==> self@ == start,
                self.nonce > start.nonce ==> self@ == start.with_nonce(self.nonce),
                !meets_difficulty(start.hash, difficulty as nat),
                forall|m: u64|
                    start.nonce < m <= self.nonce ==> !#[trigger] start.solves(
                        m,
                        difficulty as nat,
                    ),
            decreases u64::MAX - self.nonce,
        {
            self.nonce = self.nonce + 1;
            self.hash = self.calculate_hash();
            if meets_target(&self.hash, difficulty) {
                return true;
            }
        }
        proof {
            if start.nonce < u64::MAX {
                assert(!start.solves(u64::MAX, difficulty as nat));
            }
        }
        false
    }
}

} // verus!
