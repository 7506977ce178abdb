//! Value-transfer records and the pool of signed ones waiting for a block.
use vstd::prelude::*;

use crate::decimal::{decimal, push_decimal, push_signed_decimal, signed_decimal};
use crate::hashing::{now_secs, sha256_hex, sha256_hex_of};

verus! {

/// A transfer of `amount` from `sender` to `recipient`, created at
/// `timestamp` (seconds since the Unix epoch). `signature` stays empty until
/// the record is signed.
#[derive(Clone, Debug)]
pub struct Transaction {
    pub sender: String,
    pub recipient: String,
    pub amount: i64,
    pub timestamp: u64,
    pub signature: String,
}

/// The text whose digest is a transaction's content hash: sender, recipient,
/// amount and timestamp written one after another.
pub open spec fn content_preimage(tx: Transaction) -> Seq<char> {
    tx.sender@ + tx.recipient@ + signed_decimal(tx.amount as int) + decimal(tx.timestamp as nat)
}

/// The content hash of a transaction; the signature takes no part in it.
pub open spec fn content_hash(tx: Transaction) -> Seq<char> {
    sha256_hex(content_preimage(tx))
}

/// The signature that `secret` gives to a transaction: the digest of the
/// secret, a colon, and the content hash.
pub open spec fn signature_for(secret: Seq<char>, tx: Transaction) -> Seq<char> {
    sha256_hex(secret + seq![':'] + content_hash(tx))
}

/// A transaction is admissible to the pool when its signature is not empty.
pub open spec fn is_signed(tx: Transaction) -> bool {
    tx.signature@.len() > 0
}

pub open spec fn all_signed(txs: Seq<Transaction>) -> bool {
    forall|i: int| 0 <= i < txs.len() ==> #[trigger] is_signed(txs[i])
}

impl Transaction {
    /// A new unsigned transaction stamped with the current time.
    pub fn new(sender: String, recipient: String, amount: i64) -> (r: Self)
        ensures
            r.sender == sender,
            r.recipient == recipient,
            r.amount == amount,
            r.signature@ == Seq::<char>::empty(),
    {
        let timestamp = now_secs();
        Transaction { sender, recipient, amount, timestamp, signature: String::new() }
    }

    /// The hex digest of sender, recipient, amount and timestamp.
    pub fn calculate_hash(&self) -> (r: String)
        ensures
            r@ == content_hash(*self),
    {
        let mut s = self.sender.clone();
        s.append(self.recipient.as_str());
        push_signed_decimal(&mut s, self.amount);
        push_decimal(&mut s, self.timestamp);
        sha256_hex_of(s.as_str())
    }

    /// Sets the signature to the digest of `private_key`, a colon and the
    /// content hash. This is a placeholder, not an asymmetric signature.
    pub fn sign(&mut self, private_key: &str)
        ensures
            final(self).signature@ == signature_for(private_key@, *old(self)),
            final(self).signature@.len() > 0,
            final(self).sender == old(self).sender,
            final(self).recipient == old(self).recipient,
            final(self).amount == old(self).amount,
            final(self).timestamp == old(self).timestamp,
    {
        let hash = self.calculate_hash();
        proof { reveal_strlit(":"); }
        let mut data = String::from_str(private_key);
        data.append(":");
        data.append(hash.as_str());
        assert(data@ =~= private_key@ + seq![':'] + content_hash(*self));
        self.signature = sha256_hex_of(data.as_str());
    }

    /// True exactly when the signature is not empty; nothing else is checked.
    pub fn verify_signature(&self) -> (r: bool)
        ensures
            r == is_signed(*self),
    {
        !self.signature.as_str().is_empty()
    }
}

/// The signed transactions that wait to be mined, oldest first.
#[derive(Debug)]
pub struct Mempool {
    transactions: Vec<Transaction>,
}

impl View for Mempool {
    type V = Seq<Transaction>;

    closed spec fn view(&self) -> Seq<Transaction> {
        self.transactions@
    }
}

impl Mempool {
    /// Every held transaction is signed.
    pub open spec fn wf(&self) -> bool {
        all_signed(self@)
    }

    /// An empty pool.
    pub fn new() -> (r: Self)
        ensures
            r.wf(),
            r@ == Seq::<Transaction>::empty(),
    {
        Mempool { transactions: Vec::new() }
    }

    /// Admits `tx` at the end of the pool when it is signed; otherwise the
    /// pool is left as it was and `false` is returned.
    pub fn add_transaction(&mut self, tx: Transaction) -> (r: bool)
        requires
            old(self).wf(),
        ensures
            final(self).wf(),
            r == is_signed(tx),
            r ==> final(self)@ == old(self)@.push(tx),
            !r ==> final(self)@ == old(self)@,
    {
        if !tx.verify_signature() {
            return false;
        }
        self.transactions.push(tx);
        true
    }

    /// Hands out every held transaction, in order, and leaves the pool empty.
    pub fn get_transactions(&mut self) -> (r: Vec<Transaction>)
        requires
            old(self).wf(),
        ensures
            final(self).wf(),
            r@ == old(self)@,
            final(self)@ == Seq::<Transaction>::empty(),
            all_signed(r@),
    {
        let mut taken: Vec<Transaction> = Vec::new();
        std::mem::swap(&mut taken, &mut self.transactions);
        taken
    }

    /// Puts transactions back at the front of the pool, ahead of those that
    /// arrived since they were taken.
    pub(crate) fn restore(&mut self, txs: Vec<Transaction>)
        requires
            old(self).wf(),
            all_signed(txs@),
        ensures
            final(self).wf(),
            final(self)@ == txs@ + old(self)@,
    {
        let mut front = txs;
        front.append(&mut self.transactions);
        self.transactions = front;
    }

    /// The number of waiting transactions.
    pub fn len(&self) -> (r: usize)
        ensures
            r == self@.len(),
    {
        self.transactions.len()
    }

    /// True when no transaction waits.
    pub fn is_empty(&self) -> (r: bool)
        ensures
            r == (self@.len() == 0),
    {
        self.transactions.is_empty()
    }
}

} // verus!
