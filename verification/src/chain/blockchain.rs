use vstd::prelude::*;

use crate::chain::address::Public;
use crate::chain::block::{
    block_follows, block_valid, check_meets_short_signature, contains_signed, header_refreshed,
    is_genesis_block, Block,
};
use crate::chain::header::now_timestamp;
use crate::chain::transaction::{signature_well_sized, transaction_valid, SignedTransaction};

verus! {

/// A chain: the blocks already sealed, and the block being filled.
#[derive(Clone, Debug)]
pub struct BlockChain {
    pub current_block: Block,
    pub prev_blocks: Vec<Block>,
}

/// The shape every chain keeps: it starts with the genesis block, each sealed block's index
/// is its position, and the current block comes next and links to the last sealed one.
pub open spec fn chain_well_formed(c: BlockChain) -> bool {
    &&& c.prev_blocks@.len() > 0
    &&& is_genesis_block(c.prev_blocks@[0])
    &&& forall|i: int|
        0 <= i < c.prev_blocks@.len() ==> (#[trigger] c.prev_blocks@[i]).header.index == i
    &&& c.current_block.header.index == c.prev_blocks@.len()
    &&& c.current_block.header.previous_hash == c.prev_blocks@.last().header.hash
}

/// Each sealed block after the first names the hash of the block before it.
pub open spec fn chain_linked(c: BlockChain) -> bool {
    forall|i: int|
        0 < i < c.prev_blocks@.len() ==> (#[trigger] c.prev_blocks@[i]).header.previous_hash
            == c.prev_blocks@[i - 1].header.hash
}

/// `new` is `old` with its current block sealed and a fresh block paying `address`, stamped
/// `timestamp`, opened.
pub open spec fn sealed_current(old: BlockChain, address: Public, timestamp: i64, new: BlockChain) -> bool {
    new.prev_blocks@ == old.prev_blocks@.push(old.current_block) && block_follows(
        old.current_block,
        address,
        timestamp,
        new.current_block,
    )
}

/// `new` is `old` with `block` sealed and a fresh block paying `address`, stamped
/// `timestamp`, opened after it.
pub open spec fn sealed_received(
    old: BlockChain,
    block: Block,
    address: Public,
    timestamp: i64,
    new: BlockChain,
) -> bool {
    new.prev_blocks@ == old.prev_blocks@.push(block) && block_follows(
        block,
        address,
        timestamp,
        new.current_block,
    )
}

/// Checking the sealed blocks in order meets a signature too short to check before meeting
/// an invalid block.
pub open spec fn chain_check_meets_short_signature(c: BlockChain, solvent: Seq<Public>) -> bool {
    exists|k: int|
        0 <= k < c.prev_blocks@.len() && check_meets_short_signature(
            (#[trigger] c.prev_blocks@[k]).transactions@,
            solvent,
        ) && forall|l: int|
            0 <= l < k ==> !check_meets_short_signature(
                (#[trigger] c.prev_blocks@[l]).transactions@,
                solvent,
            ) && block_valid(c.prev_blocks@[l], solvent)
}

/// Every sealed block is valid.
pub open spec fn chain_valid(c: BlockChain, solvent: Seq<Public>) -> bool {
    forall|i: int| 0 <= i < c.prev_blocks@.len() ==> block_valid(#[trigger] c.prev_blocks@[i], solvent)
}

impl BlockChain {
    /// A chain holding the genesis block, with a fresh block paying `address` after it,
    /// stamped with the current time.
    pub fn new(address: Public) -> (chain: BlockChain)
        ensures
            chain.prev_blocks@.len() == 1,
            is_genesis_block(chain.prev_blocks@[0]),
            block_follows(
                chain.prev_blocks@[0],
                address,
                chain.current_block.header.timestamp,
                chain.current_block,
            ),
            chain_well_formed(chain),
            chain_linked(chain),
    {
        let timestamp = now_timestamp();
        Self::new_at(address, timestamp)
    }

    /// A chain holding the genesis block, with a fresh block paying `address` after it,
    /// stamped `timestamp`.
    pub fn new_at(address: Public, timestamp: i64) -> (chain: BlockChain)
        ensures
            chain.prev_blocks@.len() == 1,
            is_genesis_block(chain.prev_blocks@[0]),
            block_follows(chain.prev_blocks@[0], address, timestamp, chain.current_block),
            chain_well_formed(chain),
            chain_linked(chain),
    {
        let genesis: Block = Block::genesis();
        let current_block = Block::new_at(&genesis, address, timestamp);
        let mut prev_blocks: Vec<Block> = Vec::new();
        prev_blocks.push(genesis);
        BlockChain { prev_blocks, current_block }
    }

    /// Seals the current block and opens a fresh one paying `address`, stamped with the
    /// current time.
    pub fn add_current_block(&mut self, address: Public)
        requires
            old(self).current_block.header.index < u64::MAX,
        ensures
            sealed_current(*old(self), address, final(self).current_block.header.timestamp, *final(self)),
    {
        let timestamp = now_timestamp();
        self.add_current_block_at(address, timestamp);
    }

    /// Seals the current block and opens a fresh one paying `address`, stamped `timestamp`.
    pub fn add_current_block_at(&mut self, address: Public, timestamp: i64)
        requires
            old(self).current_block.header.index < u64::MAX,
        ensures
            sealed_current(*old(self), address, timestamp, *final(self)),
    {
        let mut old_block = Block::new_at(&self.current_block, address, timestamp);
        std::mem::swap(&mut old_block, &mut self.current_block);
        self.prev_blocks.push(old_block);
    }

    /// Seals a block received from a peer if all its transactions are valid, and opens a fresh
    /// block paying `address` after it, stamped with the current time; otherwise leaves the
    /// chain as it is.
    pub fn receive_new_block(&mut self, block: Block, address: Public, solvent: &Vec<Public>) -> (accepted: bool)
        requires
            block.header.index < u64::MAX,
            !check_meets_short_signature(block.transactions@, solvent@),
        ensures
            accepted == block_valid(block, solvent@),
            accepted ==> sealed_received(
                *old(self),
                block,
                address,
                final(self).current_block.header.timestamp,
                *final(self),
            ),
            !accepted ==> *final(self) == *old(self),
    {
        let timestamp = now_timestamp();
        self.receive_new_block_at(block, address, solvent, timestamp)
    }

    /// Seals a block received from a peer if all its transactions are valid, and opens a fresh
    /// block paying `address` after it, stamped `timestamp`; otherwise leaves the chain as it
    /// is.
    pub fn receive_new_block_at(
        &mut self,
        block: Block,
        address: Public,
        solvent: &Vec<Public>,
        timestamp: i64,
    ) -> (accepted: bool)
        requires
            block.header.index < u64::MAX,
            !check_meets_short_signature(block.transactions@, solvent@),
        ensures
            accepted == block_valid(block, solvent@),
            accepted ==> sealed_received(*old(self), block, address, timestamp, *final(self)),
            !accepted ==> *final(self) == *old(self),
    {
        if block.verify(solvent) {
            self.current_block = Block::new_at(&block, address, timestamp);
            self.prev_blocks.push(block);
            return true;
        }
        false
    }

    /// Adds a valid transaction that the current block does not hold yet, stamping the
    /// block with the current time.
    pub fn add_transaction(&mut self, transaction: SignedTransaction, solvent: &Vec<Public>) -> (added: bool)
        requires
            signature_well_sized(transaction),
        ensures
            added == (transaction_valid(transaction, solvent@) && !contains_signed(
                old(self).current_block.transactions@,
                transaction,
            )),
            final(self).prev_blocks == old(self).prev_blocks,
            added ==> final(self).current_block.transactions@
                == old(self).current_block.transactions@.push(transaction),
            added ==> header_refreshed(
                old(self).current_block.header,
                final(self).current_block.header,
                final(self).current_block.transactions@,
                final(self).current_block.header.timestamp,
            ),
            !added ==> *final(self) == *old(self),
    {
        let timestamp = now_timestamp();
        self.add_transaction_at(transaction, solvent, timestamp)
    }

    /// Adds a valid transaction that the current block does not hold yet, stamping the
    /// block `timestamp`.
    pub fn add_transaction_at(
        &mut self,
        transaction: SignedTransaction,
        solvent: &Vec<Public>,
        timestamp: i64,
    ) -> (added: bool)
        requires
            signature_well_sized(transaction),
        ensures
            added == (transaction_valid(transaction, solvent@) && !contains_signed(
                old(self).current_block.transactions@,
                transaction,
            )),
            final(self).prev_blocks == old(self).prev_blocks,
            added ==> final(self).current_block.transactions@
                == old(self).current_block.transactions@.push(transaction),
            added ==> header_refreshed(
                old(self).current_block.header,
                final(self).current_block.header,
                final(self).current_block.transactions@,
                timestamp,
            ),
            !added ==> *final(self) == *old(self),
    {
        self.current_block.add_transaction_at(transaction, solvent, timestamp)
    }

    /// Whether every sealed block is valid. The blocks are checked in order up to the first
    /// invalid one.
    pub fn verify(&self, solvent: &Vec<Public>) -> (ok: bool)
        requires
            !chain_check_meets_short_signature(*self, solvent@),
        ensures
            ok == chain_valid(*self, solvent@),
    {
        let mut i: usize = 0;
        while i < self.prev_blocks.len()
            invariant
                i <= self.prev_blocks@.len(),
                !chain_check_meets_short_signature(*self, solvent@),
                forall|j: int|
                    0 <= j < i ==> !check_meets_short_signature(
                        (#[trigger] self.prev_blocks@[j]).transactions@,
                        solvent@,
                    ) && block_valid(self.prev_blocks@[j], solvent@),
            decreases self.prev_blocks@.len() - i,
        {
            assert(!check_meets_short_signature(self.prev_blocks@[i as int].transactions@, solvent@));
            if self.prev_blocks[i].verify(solvent) == false {
                return false;
            }
            i = i + 1;
        }
        true
    }

    /// Tries a random nonce on the current block.
    pub fn prove_work(&mut self) -> (found: bool)
        ensures
            final(self).prev_blocks == old(self).prev_blocks,
            final(self).current_block.transactions == old(self).current_block.transactions,
            final(self).current_block.header == (crate::chain::header::Header {
                nonce: final(self).current_block.header.nonce,
                ..old(self).current_block.header
            }),
            found == crate::chain::block::meets_difficulty(
                crate::chain::block::block_digest(final(self).current_block),
            ),
    {
        self.current_block.prove_work()
    }
}

} // verus!
