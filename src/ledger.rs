//! Balances as a replay of the whole transaction history.
use vstd::prelude::*;

use crate::block::Block;
use crate::transaction::Transaction;

verus! {

/// Every transaction of `blocks`, block by block, each block's in order.
pub open spec fn all_transactions(blocks: Seq<Block>) -> Seq<Transaction>
    decreases blocks.len(),
{
    if blocks.len() == 0 {
        Seq::empty()
    } else {
        all_transactions(blocks.drop_last()) + blocks.last().transactions@
    }
}

/// What `tx` does to the balance of `address`: plus the amount when it is
/// the recipient, minus the amount when it is the sender.
pub open spec fn balance_change(tx: Transaction, address: Seq<char>) -> int {
    (if tx.recipient@ == address {
        tx.amount as int
    } else {
        0
    }) - (if tx.sender@ == address {
        tx.amount as int
    } else {
        0
    })
}

/// The balance of `address` after the transactions `txs`, from zero.
pub open spec fn balance(txs: Seq<Transaction>, address: Seq<char>) -> int
    decreases txs.len(),
{
    if txs.len() == 0 {
        0
    } else {
        balance(txs.drop_last(), address) + balance_change(txs.last(), address)
    }
}

/// The sum of the balances of `addresses` after `txs`.
pub open spec fn sum_balances(txs: Seq<Transaction>, addresses: Seq<Seq<char>>) -> int
    decreases addresses.len(),
{
    if addresses.len() == 0 {
        0
    } else {
        sum_balances(txs, addresses.drop_last()) + balance(txs, addresses.last())
    }
}

/// The total that transactions from `sender` in `txs` move.
pub open spec fn total_sent_by(txs: Seq<Transaction>, sender: Seq<char>) -> int
    decreases txs.len(),
{
    if txs.len() == 0 {
        0
    } else {
        total_sent_by(txs.drop_last(), sender) + (if txs.last().sender@ == sender {
            txs.last().amount as int
        } else {
            0
        })
    }
}

/// One more block adds its transactions at the end of the history.
pub proof fn lemma_all_transactions_take(blocks: Seq<Block>, i: int)
    requires
        0 <= i < blocks.len(),
    ensures
        all_transactions(blocks.take(i + 1)) == all_transactions(blocks.take(i))
            + blocks[i].transactions@,
{
    assert(blocks.take(i + 1).drop_last() =~= blocks.take(i));
}

/// The history of a prefix of the blocks is no longer than the whole.
pub proof fn lemma_all_transactions_prefix_len(blocks: Seq<Block>, i: int)
    requires
        0 <= i <= blocks.len(),
    ensures
        all_transactions(blocks.take(i)).len() <= all_transactions(blocks).len(),
    decreases blocks.len(),
{
    if i == blocks.len() {
        assert(blocks.take(i) =~= blocks);
    } else {
        assert(blocks.drop_last().take(i) =~= blocks.take(i));
        lemma_all_transactions_prefix_len(blocks.drop_last(), i);
    }
}

/// One more transaction changes a balance by what it does to it.
pub proof fn lemma_balance_push(txs: Seq<Transaction>, tx: Transaction, address: Seq<char>)
    ensures
        balance(txs.push(tx), address) == balance(txs, address) + balance_change(tx, address),
{
    assert(txs.push(tx).drop_last() =~= txs);
}

/// A balance moves by at most 2^63 per transaction.
pub proof fn lemma_balance_bound(txs: Seq<Transaction>, address: Seq<char>)
    ensures
        -(txs.len() * 0x8000_0000_0000_0000) <= balance(txs, address) <= txs.len()
            * 0x8000_0000_0000_0000,
    decreases txs.len(),
{
    if txs.len() > 0 {
        lemma_balance_bound(txs.drop_last(), address);
    }
}

/// What `tx` does to the balances of all `addresses` together.
pub open spec fn sum_changes(tx: Transaction, addresses: Seq<Seq<char>>) -> int
    decreases addresses.len(),
{
    if addresses.len() == 0 {
        0
    } else {
        sum_changes(tx, addresses.drop_last()) + balance_change(tx, addresses.last())
    }
}

proof fn lemma_sum_balances_step(txs: Seq<Transaction>, addresses: Seq<Seq<char>>)
    requires
        txs.len() > 0,
    ensures
        sum_balances(txs, addresses) == sum_balances(txs.drop_last(), addresses) + sum_changes(
            txs.last(),
            addresses,
        ),
    decreases addresses.len(),
{
    if addresses.len() > 0 {
        lemma_sum_balances_step(txs, addresses.drop_last());
    }
}

proof fn lemma_sum_balances_empty(addresses: Seq<Seq<char>>)
    ensures
        sum_balances(Seq::empty(), addresses) == 0,
    decreases addresses.len(),
{
    if addresses.len() > 0 {
        lemma_sum_balances_empty(addresses.drop_last());
    }
}

/// Over distinct addresses, a transaction adds its amount once for the
/// recipient, when listed, and takes it once from the sender, when listed.
proof fn lemma_sum_changes(tx: Transaction, addresses: Seq<Seq<char>>)
    requires
        addresses.no_duplicates(),
    ensures
        sum_changes(tx, addresses) == (if addresses.contains(tx.recipient@) {
            tx.amount as int
        } else {
            0
        }) - (if addresses.contains(tx.sender@) {
            tx.amount as int
        } else {
            0
        }),
    decreases addresses.len(),
{
    if addresses.len() > 0 {
        let rest = addresses.drop_last();
        let a = addresses.last();
        assert(rest.no_duplicates());
        lemma_sum_changes(tx, rest);
        assert(!rest.contains(a)) by {
            if rest.contains(a) {
                let k = choose|k: int| 0 <= k < rest.len() && rest[k] == a;
                assert(addresses[k] == addresses[addresses.len() - 1]);
            }
        }
        assert forall|x: Seq<char>| addresses.contains(x) <==> (rest.contains(x) || x == a) by {
            if addresses.contains(x) && x != a {
                let k = choose|k: int| 0 <= k < addresses.len() && addresses[k] == x;
                assert(rest[k] == x);
            }
            if x == a {
                assert(addresses[addresses.len() - 1] == a);
            }
            if rest.contains(x) {
                let k = choose|k: int| 0 <= k < rest.len() && rest[k] == x;
                assert(addresses[k] == x);
            }
        }
    }
}

/// Transfers move value between addresses and create none: when `addresses`
/// lists, once each, every address that appears in `txs` except `source`, and
/// nothing ever pays `source`, then the balances of `addresses` add up to
/// what `source` has sent.
pub proof fn lemma_conservation(txs: Seq<Transaction>, addresses: Seq<Seq<char>>, source: Seq<char>)
    requires
        addresses.no_duplicates(),
        !addresses.contains(source),
        forall|i: int| 0 <= i < txs.len() ==> (#[trigger] txs[i]).recipient@ != source,
        forall|i: int| 0 <= i < txs.len() ==> addresses.contains((#[trigger] txs[i]).recipient@),
        forall|i: int|
            0 <= i < txs.len() && (#[trigger] txs[i]).sender@ != source ==> addresses.contains(
                txs[i].sender@,
            ),
    ensures
        sum_balances(txs, addresses) == total_sent_by(txs, source),
    decreases txs.len(),
{
    if txs.len() == 0 {
        lemma_sum_balances_empty(addresses);
        assert(txs =~= Seq::empty());
    } else {
        let rest = txs.drop_last();
        assert forall|i: int| 0 <= i < rest.len() implies #[trigger] rest[i] == txs[i] by {}
        lemma_conservation(rest, addresses, source);
        lemma_sum_balances_step(txs, addresses);
        lemma_sum_changes(txs.last(), addresses);
        let t = txs[txs.len() - 1];
        assert(txs.last() == t);
        assert(addresses.contains(t.recipient@));
        if t.sender@ != source {
            assert(addresses.contains(t.sender@));
        }
    }
}

} // verus!
