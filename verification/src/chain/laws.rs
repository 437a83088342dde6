use vstd::prelude::*;

use crate::chain::address::Public;
use crate::chain::balance::coinbase_blocks;
use crate::chain::block::{
    all_valid, block_valid, contains_signed, header_refreshed, valid_transactions, Block,
};
use crate::chain::blockchain::{
    chain_linked, chain_valid, chain_well_formed, sealed_current, sealed_received, BlockChain,
};
use crate::chain::transaction::{is_nan_bits, same_signed, transaction_valid, SignedTransaction};

verus! {

/// Sealing the current block keeps a chain well formed (it still starts with the genesis
/// block, indices still match positions, and the new current block links to the sealed one)
/// and keeps consecutive sealed blocks linked by hash.
pub proof fn sealing_current_keeps_chain_well_formed(
    old: BlockChain,
    address: Public,
    timestamp: i64,
    new: BlockChain,
)
    requires
        chain_well_formed(old),
        sealed_current(old, address, timestamp, new),
    ensures
        chain_well_formed(new),
        chain_linked(old) ==> chain_linked(new),
{
    assert(new.prev_blocks@[0] == old.prev_blocks@[0]);
    assert forall|i: int| 0 <= i < new.prev_blocks@.len() implies (
    #[trigger] new.prev_blocks@[i]).header.index == i by {
        if i < old.prev_blocks@.len() {
            assert(new.prev_blocks@[i] == old.prev_blocks@[i]);
        }
    }
    if chain_linked(old) {
        assert forall|i: int| 0 < i < new.prev_blocks@.len() implies (
        #[trigger] new.prev_blocks@[i]).header.previous_hash == new.prev_blocks@[i
            - 1].header.hash by {
            assert(new.prev_blocks@[i - 1] == old.prev_blocks@[i - 1]);
            if i < old.prev_blocks@.len() {
                assert(new.prev_blocks@[i] == old.prev_blocks@[i]);
            }
        }
    }
}

/// Receiving a block whose index and previous hash are those of the current block keeps a
/// chain well formed and linked by hash, whether the block is sealed or refused.
pub proof fn receiving_keeps_chain_well_formed(
    old: BlockChain,
    block: Block,
    address: Public,
    timestamp: i64,
    accepted: bool,
    new: BlockChain,
)
    requires
        chain_well_formed(old),
        block.header.index == old.current_block.header.index,
        accepted ==> sealed_received(old, block, address, timestamp, new),
        !accepted ==> new == old,
    ensures
        chain_well_formed(new),
        chain_linked(old) && block.header.previous_hash == old.current_block.header.previous_hash
            ==> chain_linked(new),
{
    if accepted {
        assert(new.prev_blocks@[0] == old.prev_blocks@[0]);
        assert forall|i: int| 0 <= i < new.prev_blocks@.len() implies (
        #[trigger] new.prev_blocks@[i]).header.index == i by {
            if i < old.prev_blocks@.len() {
                assert(new.prev_blocks@[i] == old.prev_blocks@[i]);
            }
        }
        if chain_linked(old) && block.header.previous_hash == old.current_block.header.previous_hash {
            assert forall|i: int| 0 < i < new.prev_blocks@.len() implies (
            #[trigger] new.prev_blocks@[i]).header.previous_hash == new.prev_blocks@[i
                - 1].header.hash by {
                assert(new.prev_blocks@[i - 1] == old.prev_blocks@[i - 1]);
                if i < old.prev_blocks@.len() {
                    assert(new.prev_blocks@[i] == old.prev_blocks@[i]);
                }
            }
        }
    }
}

/// Adding a transaction to the current block keeps a chain well formed and linked by hash.
pub proof fn adding_transaction_keeps_chain_well_formed(
    old: BlockChain,
    timestamp: i64,
    new: BlockChain,
)
    requires
        chain_well_formed(old),
        new.prev_blocks == old.prev_blocks,
        header_refreshed(
            old.current_block.header,
            new.current_block.header,
            new.current_block.transactions@,
            timestamp,
        ),
    ensures
        chain_well_formed(new),
        chain_linked(old) ==> chain_linked(new),
{
}

/// A transaction whose amount is a number equals itself, so once a block holds it, adding it
/// again is refused.
pub proof fn held_transaction_is_found(txs: Seq<SignedTransaction>, t: SignedTransaction)
    requires
        !is_nan_bits(t.transaction.amount.bits),
    ensures
        contains_signed(txs.push(t), t),
{
    assert(same_signed(txs.push(t)[txs.len() as int], t));
}

/// The transactions kept by filtering are all valid.
pub proof fn filtered_transactions_are_valid(txs: Seq<SignedTransaction>, solvent: Seq<Public>)
    ensures
        all_valid(valid_transactions(txs, solvent), solvent),
    decreases txs.len(),
{
    if txs.len() > 0 {
        filtered_transactions_are_valid(txs.drop_last(), solvent);
    }
}

/// Filtering a list whose transactions are all valid keeps it whole.
pub proof fn filtering_valid_transactions_keeps_them(
    txs: Seq<SignedTransaction>,
    solvent: Seq<Public>,
)
    requires
        all_valid(txs, solvent),
    ensures
        valid_transactions(txs, solvent) == txs,
    decreases txs.len(),
{
    if txs.len() > 0 {
        let rest = txs.drop_last();
        assert(all_valid(rest, solvent)) by {
            assert forall|i: int| 0 <= i < rest.len() implies transaction_valid(
                #[trigger] rest[i],
                solvent,
            ) by {
                assert(rest[i] == txs[i]);
            }
        }
        filtering_valid_transactions_keeps_them(rest, solvent);
        assert(txs[txs.len() - 1] == txs.last());
        assert(rest.push(txs.last()) =~= txs);
    }
}

/// Filtering twice keeps what filtering once kept.
pub proof fn filtering_is_idempotent(txs: Seq<SignedTransaction>, solvent: Seq<Public>)
    ensures
        valid_transactions(valid_transactions(txs, solvent), solvent) == valid_transactions(
            txs,
            solvent,
        ),
{
    filtered_transactions_are_valid(txs, solvent);
    filtering_valid_transactions_keeps_them(valid_transactions(txs, solvent), solvent);
}

/// A transaction held at any position of a list is found in it, and a transaction is found
/// only where some position holds it.
pub proof fn found_exactly_where_held(txs: Seq<SignedTransaction>, t: SignedTransaction)
    ensures
        contains_signed(txs, t) <==> exists|i: int|
            0 <= i < txs.len() && same_signed(#[trigger] txs[i], t),
        forall|i: int| 0 <= i < txs.len() && same_signed(#[trigger] txs[i], t) ==> contains_signed(txs, t),
        !contains_signed(Seq::<SignedTransaction>::empty(), t),
{
}

/// Looking in a list with one more transaction finds `t` exactly when the shorter list held it
/// or the new transaction equals it.
pub proof fn finding_in_a_longer_list(
    txs: Seq<SignedTransaction>,
    u: SignedTransaction,
    t: SignedTransaction,
)
    ensures
        contains_signed(txs.push(u), t) <==> contains_signed(txs, t) || same_signed(u, t),
{
    let longer = txs.push(u);
    if contains_signed(txs, t) {
        let i = choose|i: int| 0 <= i < txs.len() && same_signed(#[trigger] txs[i], t);
        assert(longer[i] == txs[i]);
    }
    if same_signed(u, t) {
        assert(longer[txs.len() as int] == u);
    }
    if contains_signed(longer, t) {
        let i = choose|i: int| 0 <= i < longer.len() && same_signed(#[trigger] longer[i], t);
        if i < txs.len() {
            assert(longer[i] == txs[i]);
        }
    }
}

/// A block is valid exactly when every one of its transactions is: a single invalid
/// transaction, at any position, makes the whole block invalid.
pub proof fn block_valid_exactly_when_all_transactions_are(b: Block, solvent: Seq<Public>)
    ensures
        block_valid(b, solvent) <==> forall|i: int|
            0 <= i < b.transactions@.len() ==> transaction_valid(#[trigger] b.transactions@[i], solvent),
        forall|i: int|
            0 <= i < b.transactions@.len() && !transaction_valid(#[trigger] b.transactions@[i], solvent)
                ==> !block_valid(b, solvent),
        b.transactions@.len() == 0 ==> block_valid(b, solvent),
{
}

/// A chain is valid exactly when every sealed block is: a single invalid block, at any
/// position, makes the whole chain invalid.
pub proof fn chain_valid_exactly_when_all_blocks_are(c: BlockChain, solvent: Seq<Public>)
    ensures
        chain_valid(c, solvent) <==> forall|i: int|
            0 <= i < c.prev_blocks@.len() ==> block_valid(#[trigger] c.prev_blocks@[i], solvent),
        forall|i: int|
            0 <= i < c.prev_blocks@.len() && !block_valid(#[trigger] c.prev_blocks@[i], solvent)
                ==> !chain_valid(c, solvent),
{
}

/// Sealing one more block adds one to an address's count of paying blocks exactly when that
/// block pays the address, and nothing otherwise.
pub proof fn coinbase_count_grows_by_paying_blocks(blocks: Seq<Block>, b: Block, address: Public)
    ensures
        coinbase_blocks(blocks.push(b), address) == coinbase_blocks(blocks, address) + if b.header.coinbase
            == address {
            1int
        } else {
            0int
        },
{
    assert(blocks.push(b).drop_last() =~= blocks);
}

/// The count of paying blocks of two runs of blocks put together is the sum of their counts.
pub proof fn coinbase_count_adds_up(first: Seq<Block>, second: Seq<Block>, address: Public)
    ensures
        coinbase_blocks(first + second, address) == coinbase_blocks(first, address)
            + coinbase_blocks(second, address),
    decreases second.len(),
{
    if second.len() == 0 {
        assert(first + second =~= first);
    } else {
        let rest = second.drop_last();
        coinbase_count_adds_up(first, rest, address);
        assert((first + second).drop_last() =~= first + rest);
        assert((first + second).last() == second.last());
    }
}

/// The count of paying blocks is the number of blocks whose coinbase is the address: it is
/// at most the number of blocks, and equals it when every block pays the address.
pub proof fn coinbase_count_is_the_number_of_paying_blocks(blocks: Seq<Block>, address: Public)
    ensures
        coinbase_blocks(blocks, address) == blocks.filter(|b: Block| b.header.coinbase == address).len(),
        coinbase_blocks(blocks, address) <= blocks.len(),
        (forall|i: int| 0 <= i < blocks.len() ==> (#[trigger] blocks[i]).header.coinbase == address)
            ==> coinbase_blocks(blocks, address) == blocks.len(),
        (forall|i: int| 0 <= i < blocks.len() ==> (#[trigger] blocks[i]).header.coinbase != address)
            ==> coinbase_blocks(blocks, address) == 0,
    decreases blocks.len(),
{
    reveal(Seq::filter);
    if blocks.len() > 0 {
        let rest = blocks.drop_last();
        coinbase_count_is_the_number_of_paying_blocks(rest, address);
        if forall|i: int| 0 <= i < blocks.len() ==> (#[trigger] blocks[i]).header.coinbase == address {
            assert forall|i: int| 0 <= i < rest.len() implies (#[trigger] rest[i]).header.coinbase == address by {
                assert(rest[i] == blocks[i]);
            }
            assert(blocks[blocks.len() - 1] == blocks.last());
        }
        if forall|i: int| 0 <= i < blocks.len() ==> (#[trigger] blocks[i]).header.coinbase != address {
            assert forall|i: int| 0 <= i < rest.len() implies (#[trigger] rest[i]).header.coinbase != address by {
                assert(rest[i] == blocks[i]);
            }
            assert(blocks[blocks.len() - 1] == blocks.last());
        }
    }
}

} // verus!
