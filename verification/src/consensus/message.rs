use vstd::prelude::*;

use crate::chain::block::Block;
use crate::chain::blockchain::BlockChain;
use crate::chain::transaction::SignedTransaction;

verus! {

/// A message between nodes; addresses are `ip:port` texts.
pub enum Message {
    Ping { from: String },
    SendPeers { peers: String, from: String },
    PingReq { from: String, to: String },
    Ack { from: String },
    Join { from: String },
    Transaction { transaction: SignedTransaction, from: String },
    NewBlock { block: Block, from: String },
    GetBlockChain { from: String },
    SendBlockChain { blockchain: BlockChain, from: String },
}

/// Work that a node's decision leaves to the network side.
pub enum Action {
    /// Send a message to one address.
    Send { to: String, message: Message },
    /// Send a message to each of the addresses.
    Broadcast { targets: Vec<String>, message: Message },
    /// Parse each candidate as a socket address, and add those that parse as nodes.
    AddPeers { candidates: Vec<String> },
}

/// The texts of a sequence of strings.
pub open spec fn texts(v: Seq<String>) -> Seq<Seq<char>> {
    Seq::new(v.len(), |i: int| v[i]@)
}

} // verus!
