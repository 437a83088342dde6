use vstd::prelude::*;

use crate::chain::address::{same_public, Public};
use crate::chain::block::Block;
use crate::chain::blockchain::BlockChain;
use crate::chain::transaction::SignedTransaction;

verus! {

/// The amounts, as bit patterns, of the transactions of `txs` that `address` sent (when
/// `as_sender`) or received (otherwise), in their order.
pub open spec fn amounts_of(txs: Seq<SignedTransaction>, address: Public, as_sender: bool) -> Seq<
    u64,
>
    decreases txs.len(),
{
    if txs.len() == 0 {
        seq![]
    } else {
        let rest = amounts_of(txs.drop_last(), address, as_sender);
        let t = txs.last().transaction;
        let party = if as_sender {
            t.sender
        } else {
            t.receiver
        };
        if party == address {
            rest.push(t.amount.bits)
        } else {
            rest
        }
    }
}

/// The number of blocks whose coinbase is `address`.
pub open spec fn coinbase_blocks(blocks: Seq<Block>, address: Public) -> nat
    decreases blocks.len(),
{
    if blocks.len() == 0 {
        0
    } else {
        coinbase_blocks(blocks.drop_last(), address) + if blocks.last().header.coinbase
            == address {
            1nat
        } else {
            0nat
        }
    }
}

/// The amounts that `address` sent or received in one block.
fn block_amounts(block: &Block, address: &Public, as_sender: bool) -> (amounts: Vec<u64>)
    ensures
        amounts@ == amounts_of(block.transactions@, *address, as_sender),
{
    let txs = &block.transactions;
    let mut amounts: Vec<u64> = Vec::new();
    let mut i: usize = 0;
    while i < txs.len()
        invariant
            i <= txs@.len(),
            amounts@ == amounts_of(txs@.take(i as int), *address, as_sender),
        decreases txs@.len() - i,
    {
        let t = &txs[i].transaction;
        let party = if as_sender {
            &t.sender
        } else {
            &t.receiver
        };
        if same_public(party, address) {
            amounts.push(t.amount.bits);
        }
        proof {
            assert(txs@.take(i + 1).drop_last() =~= txs@.take(i as int));
        }
        i = i + 1;
    }
    assert(txs@.take(txs@.len() as int) =~= txs@);
    amounts
}

/// For each sealed block, the amounts that `address` sent or received in it.
fn chain_amounts(chain: &BlockChain, address: &Public, as_sender: bool) -> (per_block: Vec<Vec<u64>>)
    ensures
        per_block@.len() == chain.prev_blocks@.len(),
        forall|i: int|
            0 <= i < per_block@.len() ==> (#[trigger] per_block@[i])@ == amounts_of(
                chain.prev_blocks@[i].transactions@,
                *address,
                as_sender,
            ),
{
    let mut per_block: Vec<Vec<u64>> = Vec::new();
    let mut i: usize = 0;
    while i < chain.prev_blocks.len()
        invariant
            i <= chain.prev_blocks@.len(),
            per_block@.len() == i,
            forall|j: int|
                0 <= j < i ==> (#[trigger] per_block@[j])@ == amounts_of(
                    chain.prev_blocks@[j].transactions@,
                    *address,
                    as_sender,
                ),
        decreases chain.prev_blocks@.len() - i,
    {
        per_block.push(block_amounts(&chain.prev_blocks[i], address, as_sender));
        i = i + 1;
    }
    per_block
}

impl BlockChain {
    /// For each sealed block, in order, the amounts of the transactions that `address` sent.
    pub fn amounts_sent_by(&self, address: &Public) -> (per_block: Vec<Vec<u64>>)
        ensures
            per_block@.len() == self.prev_blocks@.len(),
            forall|i: int|
                0 <= i < per_block@.len() ==> (#[trigger] per_block@[i])@ == amounts_of(
                    self.prev_blocks@[i].transactions@,
                    *address,
                    true,
                ),
    {
        chain_amounts(self, address, true)
    }

    /// For each sealed block, in order, the amounts of the transactions that `address` received.
    pub fn amounts_received_by(&self, address: &Public) -> (per_block: Vec<Vec<u64>>)
        ensures
            per_block@.len() == self.prev_blocks@.len(),
            forall|i: int|
                0 <= i < per_block@.len() ==> (#[trigger] per_block@[i])@ == amounts_of(
                    self.prev_blocks@[i].transactions@,
                    *address,
                    false,
                ),
    {
        chain_amounts(self, address, false)
    }

    /// The number of sealed blocks whose coinbase is `address`.
    pub fn coinbase_count(&self, address: &Public) -> (count: usize)
        ensures
            count == coinbase_blocks(self.prev_blocks@, *address),
    {
        let mut count: usize = 0;
        let mut i: usize = 0;
        while i < self.prev_blocks.len()
            invariant
                i <= self.prev_blocks@.len(),
                count == coinbase_blocks(self.prev_blocks@.take(i as int), *address),
                count <= i,
            decreases self.prev_blocks@.len() - i,
        {
            proof {
                assert(self.prev_blocks@.take(i + 1).drop_last() =~= self.prev_blocks@.take(
                    i as int,
                ));
            }
            if same_public(&self.prev_blocks[i].header.coinbase, address) {
                count = count + 1;
            }
            i = i + 1;
        }
        assert(self.prev_blocks@.take(self.prev_blocks@.len() as int) =~= self.prev_blocks@);
        count
    }
}

} // verus!
