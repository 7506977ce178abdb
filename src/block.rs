//! Blocks: hash-linked batches of transactions, mined by a nonce search.
use vstd::prelude::*;

use crate::decimal::{decimal, push_decimal};
use crate::hashing::{now_secs, sha256_hex, sha256_hex_of};
use crate::transaction::{content_hash, Transaction};

verus! {

/// The number of leading `'0'` characters a mined hash needs by default.
pub const DIFFICULTY: usize = 2;

/// A block at position `index` of a chain. It is unmined (`hash` empty, nonce
/// 0) when made, and mined once `hash` has the leading zeros that the
/// difficulty asks for.
#[derive(Debug)]
pub struct Block {
    pub index: u32,
    pub previous_hash: String,
    pub timestamp: u64,
    pub transactions: Vec<Transaction>,
    pub nonce: u64,
    pub hash: String,
    pub mined: bool,
}

/// The content hashes of `txs`, one after another.
pub open spec fn hashes_of(txs: Seq<Transaction>) -> Seq<char>
    decreases txs.len(),
{
    if txs.len() == 0 {
        Seq::empty()
    } else {
        hashes_of(txs.drop_last()) + content_hash(txs.last())
    }
}

/// What a block's hash covers apart from the nonce: index, previous hash,
/// timestamp and the transactions' content hashes.
pub open spec fn header_preimage(b: Block) -> Seq<char> {
    decimal(b.index as nat) + b.previous_hash@ + decimal(b.timestamp as nat) + hashes_of(
        b.transactions@,
    )
}

/// The hash of block `b` were its nonce `nonce`.
pub open spec fn hash_with_nonce(b: Block, nonce: nat) -> Seq<char> {
    sha256_hex(header_preimage(b) + decimal(nonce))
}

/// The hash of block `b` over its stored fields.
pub open spec fn block_hash(b: Block) -> Seq<char> {
    hash_with_nonce(b, b.nonce as nat)
}

/// `h` starts with `d` characters `'0'`.
pub open spec fn meets_difficulty(h: Seq<char>, d: nat) -> bool {
    d <= h.len() && forall|i: int| 0 <= i < d ==> h[i] == '0'
}

/// Some nonce from `b`'s own up to `u64::MAX` gives `b` a hash with `d`
/// leading zeros.
pub open spec fn can_mine(b: Block, d: nat) -> bool {
    exists|n: nat| b.nonce <= n <= u64::MAX && meets_difficulty(#[trigger] hash_with_nonce(b, n), d)
}

/// `h` starts with `d` characters `'0'`.
pub fn hash_meets_difficulty(h: &str, d: usize) -> (r: bool)
    ensures
        r == meets_difficulty(h@, d as nat),
{
    let n = h.unicode_len();
    if d > n {
        return false;
    }
    let mut i: usize = 0;
    while i < d
        invariant
            d <= n == h@.len(),
            i <= d,
            forall|j: int| 0 <= j < i ==> h@[j] == '0',
        decreases d - i,
    {
        if h.get_char(i) != '0' {
            return false;
        }
        i += 1;
    }
    true
}

impl Block {
    /// An unmined block stamped with the current time.
    pub fn new(index: u32, previous_hash: String, transactions: Vec<Transaction>) -> (r: Block)
        ensures
            r.index == index,
            r.previous_hash == previous_hash,
            r.transactions@ == transactions@,
            r.nonce == 0,
            r.hash@ == Seq::<char>::empty(),
            !r.mined,
    {
        let timestamp = now_secs();
        Block {
            index,
            previous_hash,
            timestamp,
            transactions,
            nonce: 0,
            hash: String::new(),
            mined: false,
        }
    }

    /// The text of index, previous hash, timestamp and transaction hashes.
    fn header_text(&self) -> (r: String)
        ensures
            r@ == header_preimage(*self),
    {
        let mut s = String::new();
        push_decimal(&mut s, self.index as u64);
        s.append(self.previous_hash.as_str());
        push_decimal(&mut s, self.timestamp);
        let ghost fixed = s@;
        let mut i: usize = 0;
        while i < self.transactions.len()
            invariant
                i <= self.transactions@.len(),
                fixed == decimal(self.index as nat) + self.previous_hash@ + decimal(
                    self.timestamp as nat,
                ),
                s@ == fixed + hashes_of(self.transactions@.take(i as int)),
            decreases self.transactions@.len() - i,
        {
            let h = self.transactions[i].calculate_hash();
            s.append(h.as_str());
            proof {
                let t = self.transactions@;
                assert(t.take(i + 1).drop_last() =~= t.take(i as int));
                assert(s@ =~= fixed + hashes_of(t.take(i + 1)));
            }
            i += 1;
        }
        assert(self.transactions@.take(self.transactions@.len() as int) =~= self.transactions@);
        s
    }

    /// The hex digest of the block's fields, nonce included.
    pub fn calculate_hash(&self) -> (r: String)
        ensures
            r@ == block_hash(*self),
    {
        let mut s = self.header_text();
        push_decimal(&mut s, self.nonce);
        sha256_hex_of(s.as_str())
    }

    /// Searches nonces upward from the current one for a hash with
    /// `difficulty` leading zeros. The first that has them is kept and the
    /// block is mined. The search gives up, unmined, only once every nonce
    /// up to `u64::MAX` has failed. Either way `hash` is the hash of the
    /// stored fields.
    pub fn mine_block(&mut self, difficulty: usize) -> (r: bool)
        ensures
            final(self).index == old(self).index,
            final(self).previous_hash == old(self).previous_hash,
            final(self).timestamp == old(self).timestamp,
            final(self).transactions == old(self).transactions,
            old(self).nonce <= final(self).nonce,
            final(self).hash@ == block_hash(*final(self)),
            final(self).mined == r,
            r == meets_difficulty(final(self).hash@, difficulty as nat),
            forall|n: nat|
                old(self).nonce <= n < final(self).nonce ==> !meets_difficulty(
                    #[trigger] hash_with_nonce(*old(self), n),
                    difficulty as nat,
                ),
            !r ==> final(self).nonce == u64::MAX,
            r == can_mine(*old(self), difficulty as nat),
    {
        let ghost start = *self;
        let header = self.header_text();
        loop
            invariant
                start == *old(self),
                self.index == start.index,
                self.previous_hash == start.previous_hash,
                self.timestamp == start.timestamp,
                self.transactions == start.transactions,
                start.nonce <= self.nonce,
                header@ == header_preimage(start),
                forall|n: nat|
                    start.nonce <= n < self.nonce ==> !meets_difficulty(
                        #[trigger] hash_with_nonce(start, n),
                        difficulty as nat,
                    ),
            decreases u64::MAX - self.nonce,
        {
            let mut candidate = header.clone();
            push_decimal(&mut candidate, self.nonce);
            let h = sha256_hex_of(candidate.as_str());
            let ok = hash_meets_difficulty(h.as_str(), difficulty);
            self.hash = h;
            assert(header_preimage(*self) == header_preimage(start));
            if ok {
                self.mined = true;
                assert(meets_difficulty(hash_with_nonce(start, self.nonce as nat), difficulty as nat));
                return true;
            }
            if self.nonce == u64::MAX {
                self.mined = false;
                assert(!can_mine(start, difficulty as nat)) by {
                    assert forall|n: nat|
                        start.nonce <= n <= u64::MAX implies !meets_difficulty(
                        #[trigger] hash_with_nonce(start, n),
                        difficulty as nat,
                    ) by {
                        if n == u64::MAX {
                            assert(hash_with_nonce(start, n) == self.hash@);
                        }
                    }
                }
                return false;
            }
            self.nonce = self.nonce + 1;
        }
    }
}

} // verus!
