//! The chain: blocks appended one by one, each linked to the one before, and
//! the pool of transactions that the next block will take.
use vstd::prelude::*;

use crate::block::{block_hash, can_mine, meets_difficulty, Block, DIFFICULTY};
use crate::ledger::{
    all_transactions, balance, lemma_all_transactions_prefix_len, lemma_all_transactions_take,
    lemma_balance_bound, lemma_balance_push, lemma_conservation, sum_balances, total_sent_by,
};
use crate::transaction::{all_signed, signature_for, Mempool, Transaction};

verus! {

/// The amount that the coinbase transaction of each mined block credits.
pub const REWARD: i64 = 100;

/// The sender that coinbase transactions name.
pub const COINBASE_SENDER: &'static str = "COINBASE";

/// What `mine_pending_transactions` did.
#[derive(Clone, Copy, Debug, PartialEq, Eq, Structural)]
pub enum MineStatus {
    /// A block was mined and appended.
    Mined,
    /// The pool was empty; nothing changed.
    NothingToMine,
    /// No block could be appended; the pool was left as it was.
    Failed,
}

/// Block `i` stands at index `i`, and each block after the first names the
/// hash of the block before it.
pub open spec fn chain_linked(blocks: Seq<Block>) -> bool {
    &&& forall|i: int| 0 <= i < blocks.len() ==> #[trigger] blocks[i].index == i
    &&& forall|i: int|
        0 < i < blocks.len() ==> #[trigger] blocks[i].previous_hash@ == blocks[i - 1].hash@
}

/// The stored hash of `b` is the hash of its fields, and `b` counts as mined
/// exactly when that hash has `d` leading zeros.
pub open spec fn block_sealed(b: Block, d: nat) -> bool {
    b.hash@ == block_hash(b) && b.mined == meets_difficulty(b.hash@, d)
}

/// The coinbase transaction that credits `miner` with the reward.
pub open spec fn is_coinbase_for(tx: Transaction, miner: Seq<char>) -> bool {
    tx.sender@ == COINBASE_SENDER@ && tx.recipient@ == miner && tx.amount == REWARD
}

/// `b` with the index and previous hash that appending it gives it.
pub open spec fn placed(b: Block, index: u32, previous_hash: String) -> Block {
    Block { index, previous_hash, ..b }
}

/// A chain of mined blocks and the pool of signed transactions waiting for
/// the next one.
pub struct Blockchain {
    chain: Vec<Block>,
    mempool: Mempool,
    difficulty: usize,
}

impl Blockchain {
    /// The blocks, the genesis block first.
    pub closed spec fn chain_view(&self) -> Seq<Block> {
        self.chain@
    }

    /// The transactions waiting in the pool, oldest first.
    pub closed spec fn pending_view(&self) -> Seq<Transaction> {
        self.mempool@
    }

    /// The number of leading zeros that each block's hash needs.
    pub closed spec fn difficulty_view(&self) -> nat {
        self.difficulty as nat
    }

    /// A genesis block without transactions or previous hash comes first;
    /// the blocks are linked and sealed, all after the genesis block are
    /// mined, and every waiting transaction is signed.
    pub open spec fn wf(&self) -> bool {
        let blocks = self.chain_view();
        &&& blocks.len() >= 1
        &&& blocks[0].previous_hash@ == Seq::<char>::empty()
        &&& blocks[0].transactions@ == Seq::<Transaction>::empty()
        &&& chain_linked(blocks)
        &&& forall|i: int|
            0 <= i < blocks.len() ==> block_sealed(#[trigger] blocks[i], self.difficulty_view())
        &&& forall|i: int| 0 < i < blocks.len() ==> (#[trigger] blocks[i]).mined
        &&& all_signed(self.pending_view())
    }

    /// A chain at the default difficulty.
    pub fn new() -> (r: Self)
        ensures
            r.wf(),
            r.difficulty_view() == DIFFICULTY,
            r.chain_view().len() == 1,
            r.chain_view()[0].index == 0,
            r.chain_view()[0].previous_hash@ == Seq::<char>::empty(),
            r.chain_view()[0].transactions@ == Seq::<Transaction>::empty(),
            r.pending_view() == Seq::<Transaction>::empty(),
    {
        Self::with_difficulty(DIFFICULTY)
    }

    /// A chain whose blocks need `difficulty` leading zeros, holding a
    /// genesis block mined at that difficulty.
    pub fn with_difficulty(difficulty: usize) -> (r: Self)
        ensures
            r.wf(),
            r.difficulty_view() == difficulty,
            r.chain_view().len() == 1,
            r.chain_view()[0].index == 0,
            r.chain_view()[0].previous_hash@ == Seq::<char>::empty(),
            r.chain_view()[0].transactions@ == Seq::<Transaction>::empty(),
            r.pending_view() == Seq::<Transaction>::empty(),
    {
        let mut genesis = Block::new(0, String::new(), Vec::new());
        let _ = genesis.mine_block(difficulty);
        let chain = vec![genesis];
        let r = Blockchain { chain, mempool: Mempool::new(), difficulty };
        assert(chain_linked(r.chain@));
        r
    }

    /// Gives `new_block` the next index and the tip's hash as previous hash,
    /// mines it and appends it. Nothing is appended when the index would
    /// not fit in `u32` or when no nonce mines the block.
    pub fn add_block(&mut self, new_block: Block) -> (r: bool)
        requires
            old(self).wf(),
        ensures
            final(self).wf(),
            final(self).difficulty_view() == old(self).difficulty_view(),
            final(self).pending_view() == old(self).pending_view(),
            r == (old(self).chain_view().len() <= u32::MAX && can_mine(
                placed(
                    new_block,
                    old(self).chain_view().len() as u32,
                    old(self).chain_view().last().hash,
                ),
                old(self).difficulty_view(),
            )),
            r ==> final(self).chain_view().drop_last() == old(self).chain_view(),
            r ==> final(self).chain_view().len() == old(self).chain_view().len() + 1,
            r ==> final(self).chain_view().last().transactions == new_block.transactions,
            r ==> final(self).chain_view().last().timestamp == new_block.timestamp,
            !r ==> final(self).chain_view() == old(self).chain_view(),
    {
        let len = self.chain.len();
        if len > u32::MAX as usize {
            return false;
        }
        let mut block = new_block;
        block.index = len as u32;
        block.previous_hash = self.chain[len - 1].hash.clone();
        assert(block == placed(new_block, len as u32, self.chain@.last().hash));
        if !block.mine_block(self.difficulty) {
            return false;
        }
        let ghost before = self.chain@;
        self.chain.push(block);
        assert(self.chain@.drop_last() =~= before);
        true
    }

    /// The number of blocks, the genesis block included.
    pub fn get_total_blocks(&self) -> (r: usize)
        ensures
            r == self.chain_view().len(),
    {
        self.chain.len()
    }

    /// The number of transactions waiting in the pool.
    pub fn pending_count(&self) -> (r: usize)
        ensures
            r == self.pending_view().len(),
    {
        self.mempool.len()
    }

    /// The blocks, the genesis block first.
    pub fn chain(&self) -> (r: &Vec<Block>)
        ensures
            r@ == self.chain_view(),
    {
        &self.chain
    }

    /// The number of leading zeros that each block's hash needs.
    pub fn difficulty(&self) -> (r: usize)
        ensures
            r == self.difficulty_view(),
    {
        self.difficulty
    }

    /// Builds a transaction stamped with the current time, signs it with
    /// `secret` and admits it to the pool. A signed transaction is always
    /// admitted, so the result is `true`.
    pub fn create_transaction(&mut self, sender: &str, recipient: &str, amount: i64, secret: &str) -> (r: bool)
        requires
            old(self).wf(),
        ensures
            final(self).wf(),
            r,
            final(self).difficulty_view() == old(self).difficulty_view(),
            final(self).chain_view() == old(self).chain_view(),
            final(self).pending_view().drop_last() == old(self).pending_view(),
            final(self).pending_view().len() == old(self).pending_view().len() + 1,
            final(self).pending_view().last().sender@ == sender@,
            final(self).pending_view().last().recipient@ == recipient@,
            final(self).pending_view().last().amount == amount,
            final(self).pending_view().last().signature@ == signature_for(
                secret@,
                final(self).pending_view().last(),
            ),
    {
        let mut tx = Transaction::new(String::from_str(sender), String::from_str(recipient), amount);
        tx.sign(secret);
        let ghost before = self.mempool@;
        let ok = self.mempool.add_transaction(tx);
        assert(self.mempool@.drop_last() =~= before);
        ok
    }

    /// Drains the pool into a new block that starts with a coinbase
    /// transaction crediting `miner_address` with the reward, mines it and
    /// appends it. An empty pool changes nothing. When no block can be
    /// appended (the index would not fit in `u32`, or no nonce mines the
    /// block) the drained transactions go back to the pool.
    pub fn mine_pending_transactions(&mut self, miner_address: &str) -> (r: MineStatus)
        requires
            old(self).wf(),
        ensures
            final(self).wf(),
            final(self).difficulty_view() == old(self).difficulty_view(),
            (r == MineStatus::NothingToMine) == (old(self).pending_view().len() == 0),
            r != MineStatus::Mined ==> final(self).chain_view() == old(self).chain_view(),
            r != MineStatus::Mined ==> final(self).pending_view() == old(self).pending_view(),
            r == MineStatus::Mined ==> {
                let b = final(self).chain_view().last();
                &&& final(self).pending_view() == Seq::<Transaction>::empty()
                &&& final(self).chain_view().drop_last() == old(self).chain_view()
                &&& final(self).chain_view().len() == old(self).chain_view().len() + 1
                &&& b.transactions@.len() == old(self).pending_view().len() + 1
                &&& is_coinbase_for(b.transactions@[0], miner_address@)
                &&& b.transactions@.drop_first() == old(self).pending_view()
            },
            r == MineStatus::Failed ==> old(self).chain_view().len() > u32::MAX || exists|b: Block|
                {
                    &&& b.index == old(self).chain_view().len()
                    &&& b.previous_hash == old(self).chain_view().last().hash
                    &&& b.nonce == 0
                    &&& b.transactions@.len() == old(self).pending_view().len() + 1
                    &&& is_coinbase_for(b.transactions@[0], miner_address@)
                    &&& b.transactions@.drop_first() == old(self).pending_view()
                    &&& !can_mine(b, old(self).difficulty_view())
                },
    {
        if self.mempool.is_empty() {
            return MineStatus::NothingToMine;
        }
        let len = self.chain.len();
        if len > u32::MAX as usize {
            return MineStatus::Failed;
        }
        let mut drained = self.mempool.get_transactions();
        let ghost taken = drained@;
        let coinbase = Transaction::new(
            String::from_str(COINBASE_SENDER),
            String::from_str(miner_address),
            REWARD,
        );
        let mut txs: Vec<Transaction> = Vec::new();
        txs.push(coinbase);
        txs.append(&mut drained);
        assert(txs@.drop_first() =~= taken);
        let previous_hash = self.chain[len - 1].hash.clone();
        let mut block = Block::new(len as u32, previous_hash, txs);
        let ghost unmined = block;
        assert(is_coinbase_for(unmined.transactions@[0], miner_address@));
        assert(unmined.transactions@.drop_first() == taken);
        if block.mine_block(self.difficulty) {
            let ghost before = self.chain@;
            self.chain.push(block);
            assert(self.chain@.drop_last() =~= before);
            MineStatus::Mined
        } else {
            let _ = block.transactions.remove(0);
            assert(block.transactions@ =~= taken);
            self.mempool.restore(block.transactions);
            assert(self.mempool@ =~= taken);
            assert(taken == old(self).pending_view());
            assert(self.chain@ == old(self).chain_view());
            assert(!can_mine(unmined, self.difficulty as nat));
            MineStatus::Failed
        }
    }

    /// The balance of `address`: what the whole history paid it minus what it
    /// paid, genesis and coinbase transactions included.
    pub fn get_balance(&self, address: &str) -> (r: i128)
        requires
            all_transactions(self.chain_view()).len() < 0x1_0000_0000_0000_0000,
        ensures
            r == balance(all_transactions(self.chain_view()), address@),
    {
        let target = String::from_str(address);
        let mut total: i128 = 0;
        let mut i: usize = 0;
        while i < self.chain.len()
            invariant
                i <= self.chain@.len(),
                all_transactions(self.chain@).len() < 0x1_0000_0000_0000_0000,
                target@ == address@,
                total == balance(all_transactions(self.chain@.take(i as int)), address@),
            decreases self.chain@.len() - i,
        {
            let txs = &self.chain[i].transactions;
            let ghost done = all_transactions(self.chain@.take(i as int));
            proof {
                lemma_all_transactions_take(self.chain@, i as int);
                lemma_all_transactions_prefix_len(self.chain@, i + 1);
            }
            let mut j: usize = 0;
            while j < txs.len()
                invariant
                    j <= txs@.len(),
                    done + txs@ == all_transactions(self.chain@.take(i + 1)),
                    all_transactions(self.chain@.take(i + 1)).len() < 0x1_0000_0000_0000_0000,
                    target@ == address@,
                    total == balance(done + txs@.take(j as int), address@),
                decreases txs@.len() - j,
            {
                let tx = &txs[j];
                let ghost seen = done + txs@.take(j as int);
                proof {
                    lemma_balance_bound(seen, address@);
                    assert(done + txs@.take(j + 1) =~= seen.push(txs@[j as int]));
                    lemma_balance_push(seen, txs@[j as int], address@);
                }
                if tx.recipient == target {
                    total = total + tx.amount as i128;
                }
                if tx.sender == target {
                    total = total - tx.amount as i128;
                }
                j += 1;
            }
            assert(txs@.take(txs@.len() as int) =~= txs@);
            i += 1;
        }
        assert(self.chain@.take(self.chain@.len() as int) =~= self.chain@);
        total
    }
}

/// Every block of a chain stands at its own index, and every block after the
/// first names the hash of the block before it.
pub proof fn lemma_chain_linked(bc: &Blockchain)
    requires
        bc.wf(),
    ensures
        forall|i: int| 0 <= i < bc.chain_view().len() ==> #[trigger] bc.chain_view()[i].index == i,
        forall|i: int|
            0 < i < bc.chain_view().len() ==> #[trigger] bc.chain_view()[i].previous_hash@
                == bc.chain_view()[i - 1].hash@,
{
}

/// Every mined block of a chain has a hash that starts with as many `'0'`
/// characters as the chain's difficulty, and every block after the genesis
/// block is mined.
pub proof fn lemma_mined_blocks_have_leading_zeros(bc: &Blockchain)
    requires
        bc.wf(),
    ensures
        forall|i: int|
            0 < i < bc.chain_view().len() ==> (#[trigger] bc.chain_view()[i]).mined,
        forall|i: int|
            0 <= i < bc.chain_view().len() && (#[trigger] bc.chain_view()[i]).mined ==> {
                &&& bc.difficulty_view() <= bc.chain_view()[i].hash@.len()
                &&& forall|k: int|
                    0 <= k < bc.difficulty_view() ==> bc.chain_view()[i].hash@[k] == '0'
            },
{
    assert forall|i: int|
        0 <= i < bc.chain_view().len() && (#[trigger] bc.chain_view()[i]).mined implies {
        &&& bc.difficulty_view() <= bc.chain_view()[i].hash@.len()
        &&& forall|k: int| 0 <= k < bc.difficulty_view() ==> bc.chain_view()[i].hash@[k] == '0'
    } by {
        assert(block_sealed(bc.chain_view()[i], bc.difficulty_view()));
    }
}

/// The stored hash of every block of a chain is the hash of its stored index,
/// previous hash, timestamp, transactions and nonce, so recomputing it gives
/// it back.
pub proof fn lemma_stored_hashes_recompute(bc: &Blockchain)
    requires
        bc.wf(),
    ensures
        forall|i: int|
            0 <= i < bc.chain_view().len() ==> (#[trigger] bc.chain_view()[i]).hash@ == block_hash(
                bc.chain_view()[i],
            ),
{
    assert forall|i: int| 0 <= i < bc.chain_view().len() implies (#[trigger] bc.chain_view()[i]).hash@
        == block_hash(bc.chain_view()[i]) by {
        assert(block_sealed(bc.chain_view()[i], bc.difficulty_view()));
    }
}

/// Over a chain's history, transfers create no value: when `addresses` lists,
/// once each, every address that appears apart from the coinbase sender, and
/// nothing pays the coinbase sender, then the balances of `addresses` add up
/// to the amounts of the coinbase transactions.
pub proof fn lemma_balance_conservation(bc: &Blockchain, addresses: Seq<Seq<char>>)
    requires
        addresses.no_duplicates(),
        !addresses.contains(COINBASE_SENDER@),
        forall|i: int|
            0 <= i < all_transactions(bc.chain_view()).len() ==> {
                let tx = #[trigger] all_transactions(bc.chain_view())[i];
                &&& tx.recipient@ != COINBASE_SENDER@
                &&& addresses.contains(tx.recipient@)
                &&& tx.sender@ != COINBASE_SENDER@ ==> addresses.contains(tx.sender@)
            },
    ensures
        sum_balances(all_transactions(bc.chain_view()), addresses) == total_sent_by(
            all_transactions(bc.chain_view()),
            COINBASE_SENDER@,
        ),
{
    let txs = all_transactions(bc.chain_view());
    assert forall|i: int| 0 <= i < txs.len() implies (#[trigger] txs[i]).recipient@
        != COINBASE_SENDER@ && addresses.contains(txs[i].recipient@) by {}
    assert forall|i: int|
        0 <= i < txs.len() && (#[trigger] txs[i]).sender@ != COINBASE_SENDER@ implies addresses.contains(
        txs[i].sender@,
    ) by {}
    lemma_conservation(txs, addresses, COINBASE_SENDER@);
}

} // verus!
