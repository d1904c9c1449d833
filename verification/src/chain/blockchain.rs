//! Blockchain: an ordered chain of blocks and a pending-transaction mempool.

use vstd::prelude::*;
use vstd::utf8::encode_utf8;
use crate::types::{PublicKey, is_zero_key};
use crate::error::{ChainError, TransactionError};
use crate::config::DEFAULT_DIFFICULTY;
use crate::chain::block::{
    Block, block_hash_of, block_signature_check, hash_with_nonce, signing_content, meets_difficulty,
};
use crate::chain::merkle::merkle_root;
use crate::crypto::transaction::{Transaction, opt_bytes, tx_signature_check, tx_authorized};
use crate::crypto::primitives::{key_decodes, verify_signature};

verus! {

/// An append-only chain of [`Block`]s with a pending-transaction mempool.
#[derive(Debug, Clone)]
pub struct Blockchain {
    pub chain: Vec<Block>,
    pub mempool: Vec<Transaction>,
    pub difficulty: usize,
}

/// The default difficulty of a chain read without one.
pub fn default_difficulty() -> (r: usize)
    ensures
        r == 2,
{
    DEFAULT_DIFFICULTY
}

// ---------------------------------------------------------------------------
// Validation, as mathematics
// ---------------------------------------------------------------------------

/// Every transaction of the sequence is authorized.
pub open spec fn all_authorized(txs: Seq<Transaction>) -> bool {
    forall|j: int| 0 <= j < txs.len() ==> #[trigger] tx_authorized(txs[j])
}

/// Block `i` of `chain` is intact: its stored hash is the hash of its fields,
/// it links to its predecessor, its transactions are authorized and its
/// signature, if any, verifies.
pub open spec fn block_valid_at(chain: Seq<Block>, i: int) -> bool {
    &&& chain[i].hash@ == block_hash_of(chain[i])
    &&& (i > 0 ==> chain[i].prev_hash@ == chain[i - 1].hash@)
    &&& all_authorized(chain[i].transactions@)
    &&& block_signature_check(chain[i]) is Ok
}

/// Every block of the chain is intact.
pub open spec fn chain_valid(chain: Seq<Block>) -> bool {
    forall|i: int| 0 <= i < chain.len() ==> #[trigger] block_valid_at(chain, i)
}

/// Block `i` of `chain` stands where it belongs: its index is its position,
/// its stored hash is the hash of its fields, and it links to its predecessor.
pub open spec fn well_formed_at(chain: Seq<Block>, i: int) -> bool {
    &&& chain[i].index == i
    &&& chain[i].hash@ == block_hash_of(chain[i])
    &&& (i > 0 ==> chain[i].prev_hash@ == chain[i - 1].hash@)
}

/// The shape every chain built by this library's own operations keeps: a
/// genesis block with an empty previous hash, consecutive indices from 0,
/// stored hashes that match the blocks, and each block linked to the one before.
pub open spec fn chain_well_formed(chain: Seq<Block>) -> bool {
    &&& chain.len() >= 1
    &&& chain[0].prev_hash@.len() == 0
    &&& forall|i: int| 0 <= i < chain.len() ==> #[trigger] well_formed_at(chain, i)
}

// ---------------------------------------------------------------------------
// Balances, as mathematics
// ---------------------------------------------------------------------------

/// A spend by `key` in `tx` (coinbase inputs are never subtracted).
pub open spec fn debit(balance: u64, tx: Transaction, key: Seq<u8>) -> u64 {
    if !is_zero_key(tx.sender@) && tx.sender@ == key {
        balance.saturating_sub(tx.amount)
    } else {
        balance
    }
}

/// A receipt by `key` in `tx`.
pub open spec fn credit(balance: u64, tx: Transaction, key: Seq<u8>) -> u64 {
    if tx.receiver@ == key {
        balance.saturating_add(tx.amount)
    } else {
        balance
    }
}

/// Confirmed transactions, in order: each first debits, then credits.
pub open spec fn apply_confirmed(balance: u64, txs: Seq<Transaction>, key: Seq<u8>) -> u64
    decreases txs.len(),
{
    if txs.len() == 0 {
        balance
    } else {
        credit(
            debit(apply_confirmed(balance, txs.drop_last(), key), txs.last(), key),
            txs.last(),
            key,
        )
    }
}

/// The transactions of a sequence of blocks, block by block.
pub open spec fn apply_blocks(balance: u64, blocks: Seq<Block>, key: Seq<u8>) -> u64
    decreases blocks.len(),
{
    if blocks.len() == 0 {
        balance
    } else {
        apply_confirmed(apply_blocks(balance, blocks.drop_last(), key), blocks.last().transactions@, key)
    }
}

/// Pending transactions: only their spends count.
pub open spec fn apply_pending(balance: u64, txs: Seq<Transaction>, key: Seq<u8>) -> u64
    decreases txs.len(),
{
    if txs.len() == 0 {
        balance
    } else {
        debit(apply_pending(balance, txs.drop_last(), key), txs.last(), key)
    }
}

/// The available balance of `key`: confirmed receipts and spends, then pending spends,
/// with saturating arithmetic.
pub open spec fn balance_in(chain: Seq<Block>, mempool: Seq<Transaction>, key: Seq<u8>) -> u64 {
    apply_pending(apply_blocks(0, chain, key), mempool, key)
}

/// The total that `key` spends in pending transactions (coinbase inputs excluded).
pub open spec fn pending_spend(txs: Seq<Transaction>, key: Seq<u8>) -> nat
    decreases txs.len(),
{
    if txs.len() == 0 {
        0
    } else {
        let tx = txs.last();
        pending_spend(txs.drop_last(), key) + if !is_zero_key(tx.sender@) && tx.sender@ == key {
            tx.amount as nat
        } else {
            0
        }
    }
}

/// Every pending spend was covered by its sender's available balance when it
/// was queued, as `add_transaction` demands.
pub open spec fn admitted(chain: Seq<Block>, mempool: Seq<Transaction>) -> bool {
    forall|i: int|
        0 <= i < mempool.len() && !is_zero_key(#[trigger] mempool[i].sender@) ==> balance_in(
            chain,
            mempool.take(i),
            mempool[i].sender@,
        ) >= mempool[i].amount
}

/// `p` is the position of the first block of `chain` whose index is `index`.
pub open spec fn first_with_index(chain: Seq<Block>, index: int, p: int) -> bool {
    &&& 0 <= p < chain.len()
    &&& chain[p].index == index
    &&& forall|j: int| 0 <= j < p ==> chain[j].index != index
}

/// Copies 64 signature bytes into an array.
fn signature_array(sig: &[u8]) -> (r: [u8; 64])
    requires
        sig@.len() == 64,
    ensures
        r@ == sig@,
{
    let mut arr = [0u8; 64];
    for i in 0..64
        invariant
            sig@.len() == 64,
            arr@.len() == 64,
            forall|j: int| 0 <= j < i ==> arr@[j] == sig@[j],
    {
        arr[i] = sig[i];
    }
    assert(arr@ =~= sig@);
    arr
}

/// A coinbase at the front of the pending list debits nobody.
proof fn lemma_leading_coinbase_spends_nothing(chain: Seq<Block>, txs: Seq<Transaction>, key: Seq<u8>)
    requires
        txs.len() > 0,
        is_zero_key(txs[0].sender@),
    ensures
        balance_in(chain, txs, key) == balance_in(chain, txs.drop_first(), key),
    decreases txs.len(),
{
    if txs.len() > 1 {
        lemma_leading_coinbase_spends_nothing(chain, txs.drop_last(), key);
        assert(txs.drop_last().drop_first() =~= txs.drop_first().drop_last());
        assert(txs.drop_first().last() == txs.last());
    } else {
        assert(txs.drop_first() =~= Seq::<Transaction>::empty());
        assert(txs.drop_last() =~= Seq::<Transaction>::empty());
    }
}

impl Blockchain {
    /// Creates a new blockchain with default mining difficulty (2).
    pub fn new() -> (r: Blockchain)
        ensures
            r.difficulty == 2,
            r.chain@.len() == 1,
            r.chain@[0].index == 0,
            r.chain@[0].transactions@.len() == 0,
            r.chain@[0].prev_hash@.len() == 0,
            r.chain@[0].nonce == 0,
            r.chain@[0].signature is None,
            r.chain@[0].author is None,
            r.mempool@.len() == 0,
            chain_valid(r.chain@),
            chain_well_formed(r.chain@),
    {
        Self::with_difficulty(DEFAULT_DIFFICULTY)
    }

    /// Creates a new blockchain with the given difficulty: a genesis block
    /// (index 0, no transactions, empty previous hash) and an empty mempool.
    pub fn with_difficulty(difficulty: usize) -> (r: Blockchain)
        ensures
            r.difficulty == difficulty,
            r.chain@.len() == 1,
            r.chain@[0].index == 0,
            r.chain@[0].transactions@.len() == 0,
            r.chain@[0].prev_hash@.len() == 0,
            r.chain@[0].nonce == 0,
            r.chain@[0].signature is None,
            r.chain@[0].author is None,
            r.mempool@.len() == 0,
            chain_valid(r.chain@),
            chain_well_formed(r.chain@),
    {
        let genesis = Block::new(0, Vec::new(), &crate::types::Hash::empty());
        let mut chain: Vec<Block> = Vec::new();
        chain.push(genesis);
        let r = Blockchain { chain, mempool: Vec::new(), difficulty };
        assert(block_valid_at(r.chain@, 0));
        assert(well_formed_at(r.chain@, 0));
        r
    }

    /// Appends a new unmined block containing `transactions`, linked to the tip.
    /// Does nothing on an empty chain.
    pub fn add_block(&mut self, transactions: Vec<Transaction>)
        requires
            old(self).chain@.len() > 0 ==> old(self).chain@.last().index < u32::MAX,
        ensures
            final(self).mempool == old(self).mempool,
            final(self).difficulty == old(self).difficulty,
            old(self).chain@.len() == 0 ==> final(self).chain == old(self).chain,
            old(self).chain@.len() > 0 ==> {
                let b = final(self).chain@.last();
                &&& final(self).chain@.len() == old(self).chain@.len() + 1
                &&& final(self).chain@.drop_last() == old(self).chain@
                &&& b.index == old(self).chain@.last().index + 1
                &&& b.transactions == transactions
                &&& b.prev_hash@ == old(self).chain@.last().hash@
                &&& b.nonce == 0
                &&& b.signature is None
                &&& b.author is None
                &&& b.hash@ == block_hash_of(b)
            },
            chain_valid(old(self).chain@) && all_authorized(transactions@) ==> chain_valid(
                final(self).chain@,
            ),
            chain_well_formed(old(self).chain@) ==> chain_well_formed(final(self).chain@),
    {
        let n = self.chain.len();
        if n > 0 {
            let tip = &self.chain[n - 1];
            let new_block = Block::new(tip.index() + 1, transactions, tip.hash());
            self.chain.push(new_block);
            proof {
                let c = self.chain@;
                assert(c.drop_last() =~= old(self).chain@);
                if chain_valid(old(self).chain@) && all_authorized(c.last().transactions@) {
                    assert forall|i: int| 0 <= i < c.len() implies #[trigger] block_valid_at(c, i) by {
                        if i < c.len() - 1 {
                            assert(block_valid_at(old(self).chain@, i));
                        }
                    }
                }
                if chain_well_formed(old(self).chain@) {
                    assert(well_formed_at(old(self).chain@, n - 1));
                    assert forall|i: int| 0 <= i < c.len() implies #[trigger] well_formed_at(c, i) by {
                        if i < c.len() - 1 {
                            assert(well_formed_at(old(self).chain@, i));
                        }
                    }
                }
            }
        }
    }

    /// The available balance of `pubkey`: confirmed receipts and spends over
    /// the whole chain, minus the spends pending in the mempool. Coinbase inputs
    /// are never subtracted; arithmetic saturates.
    pub fn balance_of(&self, pubkey: &PublicKey) -> (r: u64)
        ensures
            r == balance_in(self.chain@, self.mempool@, pubkey@),
    {
        let ghost key = pubkey@;
        let mut balance: u64 = 0;
        let nb = self.chain.len();
        for bi in 0..nb
            invariant
                nb == self.chain@.len(),
                balance == apply_blocks(0, self.chain@.take(bi as int), key),
                key == pubkey@,
        {
            let block = &self.chain[bi];
            let txs = block.transactions();
            let ghost before = balance;
            let nt = txs.len();
            for ti in 0..nt
                invariant
                    nt == txs@.len(),
                    txs@ == self.chain@[bi as int].transactions@,
                    balance == apply_confirmed(before, txs@.take(ti as int), key),
                    key == pubkey@,
            {
                let tx = &txs[ti];
                assert(txs@.take(ti + 1).drop_last() =~= txs@.take(ti as int));
                if !tx.sender().is_coinbase() && tx.sender().same_as(pubkey) {
                    balance = balance.saturating_sub(tx.amount());
                }
                if tx.receiver().same_as(pubkey) {
                    balance = balance.saturating_add(tx.amount());
                }
            }
            assert(txs@.take(nt as int) =~= txs@);
            assert(self.chain@.take(bi + 1).drop_last() =~= self.chain@.take(bi as int));
        }
        assert(self.chain@.take(nb as int) =~= self.chain@);
        let ghost confirmed = balance;
        let nm = self.mempool.len();
        for mi in 0..nm
            invariant
                nm == self.mempool@.len(),
                balance == apply_pending(confirmed, self.mempool@.take(mi as int), key),
                key == pubkey@,
        {
            let tx = &self.mempool[mi];
            assert(self.mempool@.take(mi + 1).drop_last() =~= self.mempool@.take(mi as int));
            if !tx.sender().is_coinbase() && tx.sender().same_as(pubkey) {
                balance = balance.saturating_sub(tx.amount());
            }
        }
        assert(self.mempool@.take(nm as int) =~= self.mempool@);
        balance
    }
}


impl Blockchain {
    /// Inserts a coinbase transaction (miner reward) at the front of the mempool.
    /// Coinbase transactions use the all-zero sender and bypass balance checks.
    pub fn add_coinbase(&mut self, miner: PublicKey, reward: u64)
        ensures
            final(self).chain == old(self).chain,
            final(self).difficulty == old(self).difficulty,
            final(self).mempool@.len() == old(self).mempool@.len() + 1,
            final(self).mempool@.skip(1) == old(self).mempool@,
            is_zero_key(final(self).mempool@[0].sender@),
            final(self).mempool@[0].sender@.len() == 32,
            final(self).mempool@[0].receiver == miner,
            final(self).mempool@[0].amount == reward,
            final(self).mempool@[0].signature is None,
            chain_well_formed(old(self).chain@) ==> chain_well_formed(final(self).chain@),
            admitted(old(self).chain@, old(self).mempool@) ==> admitted(
                final(self).chain@,
                final(self).mempool@,
            ),
    {
        let coinbase = Transaction::new(PublicKey::coinbase(), miner, reward);
        self.mempool.insert(0, coinbase);
        assert(self.mempool@.skip(1) =~= old(self).mempool@);
        proof {
            let m = self.mempool@;
            let o = old(self).mempool@;
            if admitted(self.chain@, o) {
                assert forall|i: int|
                    0 <= i < m.len() && !is_zero_key(#[trigger] m[i].sender@) implies balance_in(
                    self.chain@,
                    m.take(i),
                    m[i].sender@,
                ) >= m[i].amount by {
                    assert(i > 0);
                    assert(m[i] == o[i - 1]);
                    lemma_leading_coinbase_spends_nothing(self.chain@, m.take(i), m[i].sender@);
                    assert(m.take(i).drop_first() =~= o.take(i - 1));
                }
            }
        }
    }

    /// Adds `transaction` to the mempool after checking that a non-coinbase
    /// sender's available balance covers the amount.
    pub fn add_transaction(&mut self, transaction: Transaction) -> (r: Result<(), ChainError>)
        ensures
            chain_well_formed(old(self).chain@) ==> chain_well_formed(final(self).chain@),
            admitted(old(self).chain@, old(self).mempool@) ==> admitted(
                final(self).chain@,
                final(self).mempool@,
            ),
            ({
                let available = balance_in(old(self).chain@, old(self).mempool@, transaction.sender@);
                if !is_zero_key(transaction.sender@) && available < transaction.amount {
                    &&& r == Err::<(), ChainError>(
                        ChainError::InsufficientBalance { available, required: transaction.amount },
                    )
                    &&& *final(self) == *old(self)
                } else {
                    &&& r is Ok
                    &&& final(self).mempool@ == old(self).mempool@.push(transaction)
                    &&& final(self).chain == old(self).chain
                    &&& final(self).difficulty == old(self).difficulty
                    &&& !is_zero_key(transaction.sender@) ==> balance_in(
                        final(self).chain@,
                        final(self).mempool@,
                        transaction.sender@,
                    ) == available - transaction.amount
                    &&& forall|key: Seq<u8>|
                        key != transaction.sender@ || is_zero_key(transaction.sender@) ==> #[trigger] balance_in(
                            final(self).chain@,
                            final(self).mempool@,
                            key,
                        ) == balance_in(old(self).chain@, old(self).mempool@, key)
                }
            }),
    {
        if !transaction.sender().is_coinbase() {
            let available = self.balance_of(&transaction.sender());
            if available < transaction.amount() {
                return Err(
                    ChainError::InsufficientBalance { available, required: transaction.amount() },
                );
            }
        }
        self.mempool.push(transaction);
        assert(self.mempool@.drop_last() =~= old(self).mempool@);
        proof {
            let m = self.mempool@;
            let o = old(self).mempool@;
            if admitted(self.chain@, o) {
                assert forall|i: int|
                    0 <= i < m.len() && !is_zero_key(#[trigger] m[i].sender@) implies balance_in(
                    self.chain@,
                    m.take(i),
                    m[i].sender@,
                ) >= m[i].amount by {
                    if i < o.len() {
                        assert(m.take(i) =~= o.take(i));
                        assert(m[i] == o[i]);
                    } else {
                        assert(m.take(i) =~= o);
                    }
                }
            }
        }
        Ok(())
    }

    /// The mining difficulty (number of required leading zero hex digits).
    pub fn difficulty(&self) -> (r: usize)
        ensures
            r == self.difficulty,
    {
        self.difficulty
    }

    /// The index and hash of the most recent block, or `None` on an empty chain.
    pub fn tip(&self) -> (r: Option<(u32, crate::types::Hash)>)
        ensures
            self.chain@.len() == 0 ==> r is None,
            self.chain@.len() > 0 ==> (r matches Some((i, h)) && i == self.chain@.last().index
                && h@ == self.chain@.last().hash@),
    {
        let n = self.chain.len();
        if n == 0 {
            None
        } else {
            let b = &self.chain[n - 1];
            Some((b.index(), b.hash().duplicate()))
        }
    }

    /// Drains and returns all pending transactions.
    pub fn take_mempool(&mut self) -> (r: Vec<Transaction>)
        ensures
            r == old(self).mempool,
            final(self).mempool@.len() == 0,
            final(self).chain == old(self).chain,
            final(self).difficulty == old(self).difficulty,
            chain_well_formed(old(self).chain@) ==> chain_well_formed(final(self).chain@),
    {
        let mut taken: Vec<Transaction> = Vec::new();
        std::mem::swap(&mut taken, &mut self.mempool);
        taken
    }

    /// Starts the next block for a miner working outside the chain: drains the
    /// mempool and returns the index the block gets (tip index + 1), the tip's
    /// hash to link to, and the drained transactions. `None`, with the chain
    /// left as it was, on an empty chain or when the tip index is `u32::MAX`.
    pub fn prepare_block(&mut self) -> (r: Option<(u32, crate::types::Hash, Vec<Transaction>)>)
        ensures
            final(self).chain == old(self).chain,
            final(self).difficulty == old(self).difficulty,
            old(self).chain@.len() == 0 || old(self).chain@.last().index == u32::MAX ==> {
                &&& r is None
                &&& *final(self) == *old(self)
            },
            old(self).chain@.len() > 0 && old(self).chain@.last().index < u32::MAX ==> (r matches Some(
                (i, h, txs),
            ) && i == old(self).chain@.last().index + 1 && h@ == old(self).chain@.last().hash@
                && txs == old(self).mempool && final(self).mempool@.len() == 0),
    {
        match self.tip() {
            Some((tip_index, tip_hash)) => {
                if tip_index == u32::MAX {
                    return None;
                }
                let txs = self.take_mempool();
                Some((tip_index + 1, tip_hash, txs))
            },
            None => None,
        }
    }

    /// Appends a pre-built block to the chain, as received from a peer.
    pub fn push_block(&mut self, block: Block)
        ensures
            final(self).chain@ == old(self).chain@.push(block),
            final(self).mempool == old(self).mempool,
            final(self).difficulty == old(self).difficulty,
            chain_valid(final(self).chain@) <==> chain_valid(old(self).chain@) && block_valid_at(
                final(self).chain@,
                old(self).chain@.len() as int,
            ),
            chain_well_formed(old(self).chain@) ==> (chain_well_formed(final(self).chain@)
                <==> well_formed_at(final(self).chain@, old(self).chain@.len() as int)),
    {
        self.chain.push(block);
        proof {
            let c = self.chain@;
            let o = old(self).chain@;
            if chain_valid(c) {
                assert forall|i: int| 0 <= i < o.len() implies #[trigger] block_valid_at(o, i) by {
                    assert(block_valid_at(c, i));
                }
                assert(block_valid_at(c, o.len() as int));
            }
            if chain_valid(o) && block_valid_at(c, o.len() as int) {
                assert forall|i: int| 0 <= i < c.len() implies #[trigger] block_valid_at(c, i) by {
                    if i < o.len() {
                        assert(block_valid_at(o, i));
                    }
                }
            }
            if chain_well_formed(o) {
                if chain_well_formed(c) {
                    assert(well_formed_at(c, o.len() as int));
                }
                if well_formed_at(c, o.len() as int) {
                    assert forall|i: int| 0 <= i < c.len() implies #[trigger] well_formed_at(c, i) by {
                        if i < o.len() {
                            assert(well_formed_at(o, i));
                        }
                    }
                }
            }
        }
    }

    /// Mines a new block from the whole mempool, linked to the tip, and appends
    /// it. Does nothing on an empty chain.
    pub fn mine(&mut self)
        requires
            old(self).chain@.len() > 0 ==> old(self).chain@.last().index < u32::MAX,
        ensures
            final(self).difficulty == old(self).difficulty,
            old(self).chain@.len() == 0 ==> *final(self) == *old(self),
            old(self).chain@.len() > 0 ==> {
                let b = final(self).chain@.last();
                &&& final(self).chain@.len() == old(self).chain@.len() + 1
                &&& final(self).chain@.drop_last() == old(self).chain@
                &&& final(self).mempool@.len() == 0
                &&& b.index == old(self).chain@.last().index + 1
                &&& b.transactions == old(self).mempool
                &&& b.prev_hash@ == old(self).chain@.last().hash@
                &&& b.signature is None
                &&& b.author is None
                &&& b.hash@ == block_hash_of(b)
                &&& (meets_difficulty(b.hash@, old(self).difficulty as nat) || b.nonce == u64::MAX)
                &&& forall|n: u64|
                    n < b.nonce ==> !meets_difficulty(
                        #[trigger] hash_with_nonce(b, n),
                        old(self).difficulty as nat,
                    )
            },
            chain_valid(old(self).chain@) && all_authorized(old(self).mempool@) ==> chain_valid(
                final(self).chain@,
            ),
            chain_well_formed(old(self).chain@) ==> chain_well_formed(final(self).chain@),
    {
        match self.tip() {
            Some((tip_index, tip_hash)) => {
                let txs = self.take_mempool();
                let mut new_block = Block::new(tip_index + 1, txs, &tip_hash);
                let ghost unmined = new_block;
                new_block.mine(self.difficulty);
                proof {
                    assert forall|n: u64| n < new_block.nonce implies !meets_difficulty(
                        #[trigger] hash_with_nonce(new_block, n),
                        self.difficulty as nat,
                    ) by {
                        assert(hash_with_nonce(new_block, n) == hash_with_nonce(unmined, n));
                        if n == 0 {
                            assert(unmined.hash@ == hash_with_nonce(unmined, 0));
                        }
                    }
                }
                self.chain.push(new_block);
                proof {
                    let c = self.chain@;
                    assert(c.drop_last() =~= old(self).chain@);
                    if chain_valid(old(self).chain@) && all_authorized(old(self).mempool@) {
                        assert forall|i: int| 0 <= i < c.len() implies #[trigger] block_valid_at(c, i) by {
                            if i < c.len() - 1 {
                                assert(block_valid_at(old(self).chain@, i));
                            }
                        }
                    }
                    if chain_well_formed(old(self).chain@) {
                        assert(well_formed_at(old(self).chain@, old(self).chain@.len() - 1));
                        assert forall|i: int| 0 <= i < c.len() implies #[trigger] well_formed_at(c, i) by {
                            if i < c.len() - 1 {
                                assert(well_formed_at(old(self).chain@, i));
                            }
                        }
                    }
                }
            },
            None => {},
        }
    }

    /// The position of the first block whose index is `index`, if any.
    pub fn find_block(&self, index: usize) -> (r: Option<usize>)
        ensures
            match r {
                Some(p) => first_with_index(self.chain@, index as int, p as int),
                None => forall|j: int| 0 <= j < self.chain@.len() ==> self.chain@[j].index != index,
            },
    {
        let n = self.chain.len();
        for i in 0..n
            invariant
                n == self.chain@.len(),
                forall|j: int| 0 <= j < i ==> self.chain@[j].index != index,
        {
            if self.chain[i].index as usize == index {
                return Some(i);
            }
        }
        None
    }

    /// Signs the first block whose index is `index` with the Ed25519 secret key
    /// `secret`. Does nothing if no block has that index.
    pub fn sign_block(&mut self, index: usize, secret: &[u8; 32])
        ensures
            final(self).mempool == old(self).mempool,
            final(self).difficulty == old(self).difficulty,
            final(self).chain@.len() == old(self).chain@.len(),
            (forall|j: int| 0 <= j < old(self).chain@.len() ==> old(self).chain@[j].index != index)
                ==> final(self).chain == old(self).chain,
            forall|p: int|
                first_with_index(old(self).chain@, index as int, p) ==> {
                    &&& final(self).chain@ == old(self).chain@.update(p, final(self).chain@[p])
                    &&& final(self).chain@[p].index == old(self).chain@[p].index
                    &&& final(self).chain@[p].transactions == old(self).chain@[p].transactions
                    &&& final(self).chain@[p].prev_hash == old(self).chain@[p].prev_hash
                    &&& final(self).chain@[p].hash == old(self).chain@[p].hash
                    &&& final(self).chain@[p].timestamp == old(self).chain@[p].timestamp
                    &&& final(self).chain@[p].nonce == old(self).chain@[p].nonce
                    &&& opt_bytes(final(self).chain@[p].signature) == Some(
                        crate::crypto::primitives::ed25519_signature(
                            secret@,
                            encode_utf8(signing_content(old(self).chain@[p])),
                        )@,
                    )
                    &&& final(self).chain@[p].author == Some(
                        PublicKey(crate::crypto::primitives::ed25519_public_key(secret@)),
                    )
                    &&& block_signature_check(final(self).chain@[p]) is Ok
                },
            chain_valid(old(self).chain@) ==> chain_valid(final(self).chain@),
            chain_well_formed(old(self).chain@) ==> chain_well_formed(final(self).chain@),
    {
        match self.find_block(index) {
            Some(p) => {
                self.chain[p].sign(secret);
                assert(self.chain@ =~= old(self).chain@.update(p as int, self.chain@[p as int]));
                proof {
                    let c = self.chain@;
                    let o = old(self).chain@;
                    if chain_valid(o) {
                        assert forall|i: int| 0 <= i < c.len() implies #[trigger] block_valid_at(c, i) by {
                            assert(block_valid_at(o, i));
                            if i > 0 {
                                assert(block_valid_at(o, i - 1));
                            }
                            assert(block_hash_of(c[i]) == block_hash_of(o[i]));
                        }
                    }
                    if chain_well_formed(o) {
                        assert forall|i: int| 0 <= i < c.len() implies #[trigger] well_formed_at(c, i) by {
                            assert(well_formed_at(o, i));
                            assert(block_hash_of(c[i]) == block_hash_of(o[i]));
                        }
                    }
                }
            },
            None => {},
        }
    }

    /// All blocks of the chain.
    pub fn chain(&self) -> (r: &[Block])
        ensures
            r@ == self.chain@,
    {
        self.chain.as_slice()
    }

    /// Overwrites the stored hash of the first block whose index is `index`
    /// with `corrupt_hash` (for tests of validation).
    pub fn corrupt_block(&mut self, index: usize)
        ensures
            final(self).mempool == old(self).mempool,
            final(self).difficulty == old(self).difficulty,
            final(self).chain@.len() == old(self).chain@.len(),
            (forall|j: int| 0 <= j < old(self).chain@.len() ==> old(self).chain@[j].index != index)
                ==> final(self).chain == old(self).chain,
            forall|p: int|
                first_with_index(old(self).chain@, index as int, p) ==> {
                    &&& final(self).chain@ == old(self).chain@.update(p, final(self).chain@[p])
                    &&& final(self).chain@[p].hash@ == "corrupt_hash"@
                    &&& final(self).chain@[p].index == old(self).chain@[p].index
                    &&& final(self).chain@[p].transactions == old(self).chain@[p].transactions
                    &&& final(self).chain@[p].prev_hash == old(self).chain@[p].prev_hash
                    &&& final(self).chain@[p].timestamp == old(self).chain@[p].timestamp
                    &&& final(self).chain@[p].signature == old(self).chain@[p].signature
                    &&& final(self).chain@[p].author == old(self).chain@[p].author
                    &&& final(self).chain@[p].nonce == old(self).chain@[p].nonce
                },
    {
        match self.find_block(index) {
            Some(p) => {
                self.chain[p].corrupt();
                assert(self.chain@ =~= old(self).chain@.update(p as int, self.chain@[p as int]));
            },
            None => {},
        }
    }
}


impl Blockchain {
    /// Validates the entire chain: hash integrity, block linkage, transaction
    /// signatures and block signatures.
    pub fn validate(&self) -> (r: bool)
        ensures
            r == chain_valid(self.chain@),
            r ==> forall|i: int|
                0 < i < self.chain@.len() ==> #[trigger] self.chain@[i].prev_hash@ == self.chain@[i
                    - 1].hash@,
            r ==> forall|i: int|
                0 <= i < self.chain@.len() ==> #[trigger] self.chain@[i].hash@ == block_hash_of(
                    self.chain@[i],
                ),
    {
        let n = self.chain.len();
        for i in 0..n
            invariant
                n == self.chain@.len(),
                forall|j: int| 0 <= j < i ==> #[trigger] block_valid_at(self.chain@, j),
        {
            if !self.validate_block(i, &self.chain[i]) {
                return false;
            }
        }
        proof {
            valid_chain_is_linked_and_hashed(self.chain@);
        }
        true
    }

    fn validate_block(&self, i: usize, block: &Block) -> (r: bool)
        requires
            i < self.chain@.len(),
            *block == self.chain@[i as int],
        ensures
            r == block_valid_at(self.chain@, i as int),
    {
        if !block.hash().same_as(&block.compute_hash()) {
            return false;
        }
        if i > 0 && !block.prev_hash().same_as(self.chain[i - 1].hash()) {
            return false;
        }
        let txs = block.transactions();
        let n = txs.len();
        for t in 0..n
            invariant
                n == txs@.len(),
                txs@ == block.transactions@,
                i < self.chain@.len(),
                *block == self.chain@[i as int],
                forall|j: int| 0 <= j < t ==> #[trigger] tx_authorized(txs@[j]),
        {
            let tx = &txs[t];
            if !tx.sender().is_coinbase() {
                if Self::verify_tx_signature(tx).is_err() {
                    assert(!tx_authorized(txs@[t as int]));
                    return false;
                }
            }
        }
        self.verify_block_signature(block).is_ok()
    }

    fn verify_tx_signature(tx: &Transaction) -> (r: Result<(), TransactionError>)
        ensures
            r == tx_signature_check(*tx),
    {
        let sig_bytes = match tx.signature() {
            Some(s) => s,
            None => {
                return Err(TransactionError::InvalidSignature);
            },
        };
        if sig_bytes.len() != 64 {
            return Err(TransactionError::InvalidSignatureLength);
        }
        let sig = signature_array(sig_bytes);
        let content = tx.content();
        if !key_decodes(tx.sender.as_bytes()) {
            return Err(TransactionError::InvalidPublicKey);
        }
        if verify_signature(tx.sender.as_bytes(), content.as_str().as_bytes(), &sig) {
            Ok(())
        } else {
            Err(TransactionError::InvalidSignature)
        }
    }

    fn verify_block_signature(&self, block: &Block) -> (r: Result<(), ChainError>)
        ensures
            r == block_signature_check(*block),
    {
        let (sig_bytes, author) = match (block.signature(), block.author()) {
            (Some(s), Some(a)) => (s, a),
            _ => {
                return Ok(());
            },
        };
        if sig_bytes.len() != 64 {
            return Err(ChainError::Transaction(TransactionError::InvalidSignatureLength));
        }
        let sig = signature_array(sig_bytes);
        let mut content = String::new();
        crate::encoding::push_decimal(&mut content, block.index() as u64);
        let root = merkle_root(block.transactions());
        content.append(root.as_str());
        content.append(block.prev_hash().as_str());
        crate::encoding::push_decimal(&mut content, block.timestamp());
        if !key_decodes(author.as_bytes()) {
            return Err(ChainError::Transaction(TransactionError::InvalidPublicKey));
        }
        if verify_signature(author.as_bytes(), content.as_str().as_bytes(), &sig) {
            Ok(())
        } else {
            Err(ChainError::Transaction(TransactionError::InvalidSignature))
        }
    }
}

impl Default for Blockchain {
    /// The same as [`Blockchain::new`].
    fn default() -> (r: Blockchain)
        ensures
            r.difficulty == 2,
            r.chain@.len() == 1,
            r.chain@[0].index == 0,
            r.chain@[0].transactions@.len() == 0,
            r.chain@[0].prev_hash@.len() == 0,
            r.chain@[0].nonce == 0,
            r.chain@[0].signature is None,
            r.chain@[0].author is None,
            r.mempool@.len() == 0,
            chain_valid(r.chain@),
            chain_well_formed(r.chain@),
    {
        Self::new()
    }
}

/// A block whose stored hash has been overwritten with `corrupt_hash` never
/// validates: a block hash is always 64 hex digits, and the chain that holds
/// such a block is invalid.
pub proof fn corrupted_hash_never_validates(chain: Seq<Block>, p: int)
    requires
        0 <= p < chain.len(),
        chain[p].hash@ == "corrupt_hash"@,
    ensures
        !chain_valid(chain),
{
    reveal_strlit("corrupt_hash");
    let b = chain[p];
    crate::encoding::lemma_hex_lower_len(
        crate::crypto::primitives::sha256(
            encode_utf8(crate::chain::block::signing_content(b) + crate::encoding::decimal(b.nonce as nat)),
        )@,
    );
    assert(!block_valid_at(chain, p));
}

/// A valid chain is intact on its fields: every block's stored hash is the
/// hash of its header, and every block after the first names the stored hash
/// of the block before it as its previous hash.
pub proof fn valid_chain_is_linked_and_hashed(chain: Seq<Block>)
    requires
        chain_valid(chain),
    ensures
        forall|i: int| 0 < i < chain.len() ==> #[trigger] chain[i].prev_hash@ == chain[i - 1].hash@,
        forall|i: int| 0 <= i < chain.len() ==> #[trigger] chain[i].hash@ == block_hash_of(chain[i]),
{
    assert forall|i: int| 0 < i < chain.len() implies #[trigger] chain[i].prev_hash@ == chain[i
        - 1].hash@ by {
        assert(block_valid_at(chain, i));
    }
    assert forall|i: int| 0 <= i < chain.len() implies #[trigger] chain[i].hash@ == block_hash_of(
        chain[i],
    ) by {
        assert(block_valid_at(chain, i));
    }
}

/// The total that transactions pay to `key`.
pub open spec fn credited_to(txs: Seq<Transaction>, key: Seq<u8>) -> nat
    decreases txs.len(),
{
    if txs.len() == 0 {
        0
    } else {
        credited_to(txs.drop_last(), key) + if txs.last().receiver@ == key {
            txs.last().amount as nat
        } else {
            0
        }
    }
}

proof fn lemma_receipts_add_up(balance: u64, txs: Seq<Transaction>, key: Seq<u8>)
    requires
        pending_spend(txs, key) == 0,
    ensures
        apply_confirmed(balance, txs, key) == if balance + credited_to(txs, key) > u64::MAX {
            u64::MAX as int
        } else {
            balance + credited_to(txs, key)
        },
    decreases txs.len(),
{
    if txs.len() > 0 {
        lemma_receipts_add_up(balance, txs.drop_last(), key);
    }
}

proof fn lemma_spends_add_up(balance: u64, txs: Seq<Transaction>, key: Seq<u8>)
    requires
        credited_to(txs, key) == 0,
    ensures
        apply_confirmed(balance, txs, key) == if balance < pending_spend(txs, key) {
            0
        } else {
            balance - pending_spend(txs, key)
        },
    decreases txs.len(),
{
    if txs.len() > 0 {
        lemma_spends_add_up(balance, txs.drop_last(), key);
    }
}

/// Confirming a block that spends nothing from `key` raises its confirmed
/// balance by everything the block's transactions pay to `key`, wherever they
/// sit in the block, capped at `u64::MAX`.
pub proof fn confirmed_receipts_all_count(chain: Seq<Block>, block: Block, key: Seq<u8>)
    requires
        pending_spend(block.transactions@, key) == 0,
    ensures
        balance_in(chain.push(block), Seq::empty(), key) == if balance_in(chain, Seq::empty(), key)
            + credited_to(block.transactions@, key) > u64::MAX {
            u64::MAX as int
        } else {
            balance_in(chain, Seq::empty(), key) + credited_to(block.transactions@, key)
        },
{
    let c2 = chain.push(block);
    assert(c2.drop_last() =~= chain);
    lemma_receipts_add_up(apply_blocks(0, chain, key), block.transactions@, key);
}

/// Confirming a block that pays nothing to `key` lowers its confirmed balance
/// by everything the block's transactions spend from it, floored at 0.
pub proof fn confirmed_spends_all_count(chain: Seq<Block>, block: Block, key: Seq<u8>)
    requires
        credited_to(block.transactions@, key) == 0,
    ensures
        balance_in(chain.push(block), Seq::empty(), key) == if balance_in(chain, Seq::empty(), key)
            < pending_spend(block.transactions@, key) {
            0
        } else {
            balance_in(chain, Seq::empty(), key) - pending_spend(block.transactions@, key)
        },
{
    let c2 = chain.push(block);
    assert(c2.drop_last() =~= chain);
    lemma_spends_add_up(apply_blocks(0, chain, key), block.transactions@, key);
}

/// Mining a block that holds a single coinbase transaction credits its
/// receiver with the reward (saturating) on top of the confirmed balance.
pub proof fn mined_coinbase_credits_miner(chain: Seq<Block>, mined: Block, miner: Seq<u8>)
    requires
        mined.transactions@.len() == 1,
        is_zero_key(mined.transactions@[0].sender@),
        mined.transactions@[0].receiver@ == miner,
    ensures
        balance_in(chain.push(mined), Seq::empty(), miner) == balance_in(
            chain,
            Seq::empty(),
            miner,
        ).saturating_add(mined.transactions@[0].amount),
{
    let txs = mined.transactions@;
    let c2 = chain.push(mined);
    assert(c2.drop_last() =~= chain);
    assert(c2.last() == mined);
    let before = apply_blocks(0, chain, miner);
    assert(apply_blocks(0, c2, miner) == apply_confirmed(before, txs, miner));
    assert(txs.drop_last() =~= Seq::<Transaction>::empty());
    assert(apply_confirmed(before, txs.drop_last(), miner) == before);
    assert(debit(before, txs.last(), miner) == before);
    assert(apply_confirmed(before, txs, miner) == before.saturating_add(txs[0].amount));
    assert(balance_in(c2, Seq::empty(), miner) == apply_blocks(0, c2, miner));
    assert(balance_in(chain, Seq::empty(), miner) == before);
}

/// No double spending: when every pending spend was admitted against the
/// available balance, the pending spends of each key together never exceed its
/// confirmed balance, and its available balance is exactly the difference
/// (the saturating subtraction never clips).
pub proof fn admitted_spends_fit_confirmed_balance(
    chain: Seq<Block>,
    mempool: Seq<Transaction>,
    key: Seq<u8>,
)
    requires
        admitted(chain, mempool),
    ensures
        pending_spend(mempool, key) <= apply_blocks(0, chain, key),
        balance_in(chain, mempool, key) == apply_blocks(0, chain, key) - pending_spend(mempool, key),
    decreases mempool.len(),
{
    if mempool.len() > 0 {
        let rest = mempool.drop_last();
        let tx = mempool.last();
        assert(admitted(chain, rest)) by {
            assert forall|i: int|
                0 <= i < rest.len() && !is_zero_key(#[trigger] rest[i].sender@) implies balance_in(
                chain,
                rest.take(i),
                rest[i].sender@,
            ) >= rest[i].amount by {
                assert(rest.take(i) =~= mempool.take(i));
                assert(rest[i] == mempool[i]);
            }
        }
        admitted_spends_fit_confirmed_balance(chain, rest, key);
        if !is_zero_key(tx.sender@) && tx.sender@ == key {
            let i = mempool.len() - 1;
            assert(mempool.take(i) =~= rest);
            assert(!is_zero_key(mempool[i].sender@));
            admitted_spends_fit_confirmed_balance(chain, rest, tx.sender@);
        }
    }
}

} // verus!
