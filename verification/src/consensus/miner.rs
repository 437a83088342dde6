use vstd::prelude::*;
use vstd::string::StrSliceExecFns;

use crate::chain::address::Public;
use crate::chain::block::{
    block_digest, block_follows, block_valid, contains_signed, header_refreshed, is_genesis_block,
    check_meets_short_signature, meets_difficulty, random_nonce, same_block, same_block_alike,
    same_content, Block,
};
use crate::chain::blockchain::{chain_well_formed, BlockChain};
use crate::chain::header::{now_timestamp, Header};
use crate::chain::laws::{
    adding_transaction_keeps_chain_well_formed, receiving_keeps_chain_well_formed,
    sealing_current_keeps_chain_well_formed,
};
use crate::chain::transaction::{signature_well_sized, transaction_valid, SignedTransaction};
use crate::consensus::config::Config;
use crate::consensus::message::{texts, Action, Message};
use crate::consensus::node::{
    compare_keys, has_address, keys_sorted, lemma_sorted_addresses_unique, node_added,
    peer_list_text, KeyOrder, Node, NodeTable, State,
};

verus! {

/// The text cut at every semicolon, as `str::split(";")` cuts it: empty pieces included.
pub open spec fn split_semicolons(s: Seq<char>) -> Seq<Seq<char>>
    decreases s.len(),
{
    if s.len() == 0 {
        seq![seq![]]
    } else {
        let rest = split_semicolons(s.drop_last());
        if s.last() == ';' {
            rest.push(seq![])
        } else {
            rest.update(rest.len() - 1, rest.last().push(s.last()))
        }
    }
}

/// Cutting always leaves at least one piece.
pub proof fn lemma_split_nonempty(s: Seq<char>)
    ensures
        split_semicolons(s).len() >= 1,
    decreases s.len(),
{
    if s.len() > 0 {
        lemma_split_nonempty(s.drop_last());
    }
}

/// Cuts a peer list at every semicolon.
pub fn split_peers(peers: &str) -> (pieces: Vec<String>)
    ensures
        texts(pieces@) == split_semicolons(peers@),
{
    let n = peers.unicode_len();
    let mut pieces: Vec<String> = Vec::new();
    let mut start: usize = 0;
    let mut i: usize = 0;
    assert(peers@.take(0) =~= seq![]);
    assert(split_semicolons(seq![]) == seq![Seq::<char>::empty()]);
    assert(texts(pieces@).push(peers@.subrange(0, 0)) =~= split_semicolons(peers@.take(0)));
    while i < n
        invariant
            n == peers@.len(),
            start <= i <= n,
            texts(pieces@).push(peers@.subrange(start as int, i as int)) == split_semicolons(
                peers@.take(i as int),
            ),
        decreases n - i,
    {
        let c = peers.get_char(i);
        proof {
            lemma_split_nonempty(peers@.take(i as int));
            assert(peers@.take(i + 1).drop_last() =~= peers@.take(i as int));
            assert(peers@.take(i + 1).last() == c);
        }
        if c == ';' {
            let piece = peers.substring_char(start, i).to_owned();
            let ghost before = pieces@;
            pieces.push(piece);
            proof {
                assert(texts(pieces@) =~= texts(before).push(peers@.subrange(start as int, i as int)));
                assert(peers@.subrange(i + 1, i + 1) =~= Seq::<char>::empty());
                assert(texts(pieces@).push(peers@.subrange(i + 1, i + 1)) =~= split_semicolons(
                    peers@.take(i + 1),
                ));
            }
            start = i + 1;
        } else {
            proof {
                assert(peers@.subrange(start as int, i + 1) =~= peers@.subrange(
                    start as int,
                    i as int,
                ).push(c));
                assert(texts(pieces@).push(peers@.subrange(start as int, i + 1)) =~= split_semicolons(
                    peers@.take(i + 1),
                ));
            }
        }
        i = i + 1;
    }
    let last = peers.substring_char(start, n).to_owned();
    let ghost before = pieces@;
    pieces.push(last);
    proof {
        assert(peers@.take(n as int) =~= peers@);
        assert(texts(pieces@) =~= texts(before).push(peers@.subrange(start as int, n as int)));
    }
    pieces
}

} // verus!

verus! {

/// The number of proof-of-work attempts between two ping rounds of a miner.
pub const MINING_ROUND: usize = 4999;

/// A counter after one more attempt, wrapping around as an atomic `fetch_add` does.
pub open spec fn bumped(n: usize) -> usize {
    if n == usize::MAX {
        0
    } else {
        (n + 1) as usize
    }
}

pub(crate) fn bump(n: usize) -> (m: usize)
    ensures
        m == bumped(n),
{
    if n == usize::MAX {
        0
    } else {
        n + 1
    }
}

/// The state a node gets from the count of attempts it had before this round. The second
/// threshold is never reached, since a count above ten is above five.
pub open spec fn state_for_attempts(count: usize, state: State) -> State {
    if count > 5 {
        State::Questionable
    } else if count > 10 {
        State::Dead
    } else {
        state
    }
}

/// A node after one round of the miner's failure detection.
pub open spec fn attempt_filtered(n: Node) -> Node {
    Node { state: state_for_attempts(n.last_attempt, n.state), last_attempt: bumped(n.last_attempt), ..n }
}

/// `new` is `old` after an acknowledgement from `address`: that node, if known, is alive and
/// its response counter is zero.
pub open spec fn node_acked(old: Seq<Node>, address: Seq<char>, new: Seq<Node>) -> bool {
    if has_address(old, address) {
        forall|i: int|
            0 <= i < old.len() && (#[trigger] old[i]).address@ == address ==> new == old.update(
                i,
                Node { state: State::Alive, last_response: 0, ..old[i] },
            )
    } else {
        new == old
    }
}

/// The addresses a broadcast goes to: the nodes not known to be dead, other than this one.
pub open spec fn broadcast_targets(nodes: Seq<Node>, own: Seq<char>) -> Seq<Seq<char>>
    decreases nodes.len(),
{
    if nodes.len() == 0 {
        seq![]
    } else {
        let rest = broadcast_targets(nodes.drop_last(), own);
        let n = nodes.last();
        if n.state != State::Dead && n.address@ != own {
            rest.push(n.address@)
        } else {
            rest
        }
    }
}

/// `p` is the node a ping round picks: one with the most attempts, the last such in order.
pub open spec fn is_ping_choice(nodes: Seq<Node>, p: int) -> bool {
    &&& 0 <= p < nodes.len()
    &&& forall|j: int| 0 <= j < nodes.len() ==> (#[trigger] nodes[j]).last_attempt <= nodes[p].last_attempt
    &&& forall|j: int| p < j < nodes.len() ==> (#[trigger] nodes[j]).last_attempt < nodes[p].last_attempt
}

/// The state and counters of the node picked by a ping round after it was picked.
pub open spec fn after_ping(n: Node) -> Node {
    Node { last_attempt: 0, last_response: bumped(n.last_response), ..n }
}

/// `out` is what a ping round of `old` gives, and `new` the miner after it.
pub open spec fn pinged(old: Miner, new: Miner, out: Option<(Node, Action)>) -> bool {
    let f = old.node_list().map_values(|n: Node| attempt_filtered(n));
    let own = old.own_config().address;
    &&& new.chain() == old.chain()
    &&& new.own_config() == old.own_config()
    &&& f.len() == 0 ==> out is None && new.node_list() == f
    &&& f.len() > 0 ==> exists|p: int| #[trigger] is_ping_choice(f, p) && ping_outcome(f, p, own, new, out)
}

/// Picking the node at `p` of the filtered list `f` leaves `new` and gives `out`.
pub open spec fn ping_outcome(f: Seq<Node>, p: int, own: String, new: Miner, out: Option<(Node, Action)>) -> bool {
    &&& new.node_list() == f.update(p, after_ping(f[p]))
    &&& out is Some
    &&& out.unwrap().0 == after_ping(f[p])
    &&& if f[p].state == State::Alive {
        &&& out.unwrap().1 matches Action::Send { to, message: Message::SendPeers { peers, from } }
        &&& out.unwrap().1->Send_to == f[p].address
        &&& out.unwrap().1->Send_message->SendPeers_peers@ == peer_list_text(new.node_list())
        &&& out.unwrap().1->Send_message->SendPeers_from == own
    } else {
        out.unwrap().1 == (Action::Send { to: f[p].address, message: Message::Ping { from: own } })
    }
}

/// `a` sends `message` to every node of `m` not known to be dead, other than `m` itself.
pub open spec fn is_broadcast_of(m: Miner, a: Action, message: Message) -> bool {
    a matches Action::Broadcast { targets, message: msg } && msg == message && texts(targets@)
        == broadcast_targets(m.node_list(), m.own_config().address@)
}

/// The miner's peers, chain and configuration are as they were.
pub open spec fn unchanged(old: Miner, new: Miner) -> bool {
    new.node_list() == old.node_list() && new.chain() == old.chain() && new.own_config()
        == old.own_config()
}

/// The block that a proof-of-work attempt with `nonce` tries: the current block with that
/// nonce.
pub open spec fn tried_block(m: Miner, nonce: u64) -> Block {
    Block {
        header: Header { nonce: nonce, ..m.chain().current_block.header },
        transactions: m.chain().current_block.transactions,
    }
}

/// `new` and `out` are what a proof-of-work attempt of `old` with `nonce` gives, when the
/// clock reads `timestamp`.
pub open spec fn mined(old: Miner, nonce: u64, timestamp: i64, new: Miner, out: Option<Action>) -> bool {
    let tried = tried_block(old, nonce);
    &&& new.node_list() == old.node_list()
    &&& new.own_config() == old.own_config()
    &&& if meets_difficulty(block_digest(tried)) && tried.header.index < u64::MAX {
        &&& new.chain().prev_blocks@ == old.chain().prev_blocks@.push(tried)
        &&& block_follows(tried, old.own_config().wallet, timestamp, new.chain().current_block)
        &&& out matches Some(a) && a matches Action::Broadcast {
            targets,
            message: Message::NewBlock { block, from },
        } && same_block(block, tried) && from == old.own_config().address && texts(targets@)
            == broadcast_targets(old.node_list(), old.own_config().address@)
    } else {
        &&& new.chain() == (BlockChain { current_block: tried, prev_blocks: old.chain().prev_blocks })
        &&& out is None
    }
}

/// What handling a transaction message does when the clock reads `timestamp`: a valid
/// transaction that the current block does not hold yet is added and broadcast; otherwise
/// nothing changes.
pub open spec fn transaction_handled(
    old: Miner,
    transaction: SignedTransaction,
    from: String,
    solvent: Seq<Public>,
    timestamp: i64,
    new: Miner,
    actions: Seq<Action>,
) -> bool {
    let txs = old.chain().current_block.transactions@;
    let new_txs = new.chain().current_block.transactions@;
    &&& new.node_list() == old.node_list()
    &&& new.own_config() == old.own_config()
    &&& if transaction_valid(transaction, solvent) && !contains_signed(txs, transaction) {
        &&& new.chain().prev_blocks == old.chain().prev_blocks
        &&& new_txs.len() == txs.len() + 1
        &&& new_txs.drop_last() == txs
        &&& same_content(new_txs.last(), transaction)
        &&& header_refreshed(
            old.chain().current_block.header,
            new.chain().current_block.header,
            new_txs,
            timestamp,
        )
        &&& actions.len() == 1
        &&& is_broadcast_of(old, actions[0], Message::Transaction { transaction, from })
    } else {
        new.chain() == old.chain() && actions.len() == 0
    }
}

/// What handling a new-block message does when the clock reads `timestamp`: a valid block
/// with the current block's index is sealed, a fresh block is opened after it, and it is
/// broadcast; otherwise nothing changes.
pub open spec fn block_handled(
    old: Miner,
    block: Block,
    from: String,
    solvent: Seq<Public>,
    timestamp: i64,
    new: Miner,
    actions: Seq<Action>,
) -> bool {
    let index = old.chain().current_block.header.index;
    let sealed = new.chain().prev_blocks@;
    &&& new.node_list() == old.node_list()
    &&& new.own_config() == old.own_config()
    &&& if block.header.index == index && index < u64::MAX && block_valid(block, solvent) {
        &&& sealed.len() == old.chain().prev_blocks@.len() + 1
        &&& sealed.drop_last() == old.chain().prev_blocks@
        &&& same_block(sealed.last(), block)
        &&& block_follows(sealed.last(), old.own_config().wallet, timestamp, new.chain().current_block)
        &&& actions.len() == 1
        &&& is_broadcast_of(old, actions[0], Message::NewBlock { block, from })
    } else {
        new.chain() == old.chain() && actions.len() == 0
    }
}

/// Handling the message meets no signature too short to check: a transaction's signature is
/// always checked, and a block's transactions are checked in order, up to the first invalid
/// one, when the block has the current index.
pub open spec fn message_checkable(m: Miner, message: Message, solvent: Seq<Public>) -> bool {
    match message {
        Message::Transaction { transaction, .. } => signature_well_sized(transaction),
        Message::NewBlock { block, .. } => {
            let index = m.chain().current_block.header.index;
            (block.header.index == index && index < u64::MAX) ==> !check_meets_short_signature(
                block.transactions@,
                solvent,
            )
        },
        _ => true,
    }
}

/// What handling `message` does to `old` when the clock reads `timestamp`, giving `new` and
/// the `actions` for the network.
pub open spec fn handled(
    old: Miner,
    message: Message,
    solvent: Seq<Public>,
    timestamp: i64,
    new: Miner,
    actions: Seq<Action>,
) -> bool {
    match message {
        Message::Ping { from } => unchanged(old, new) && actions == seq![old.ack_to(from)],
        Message::Join { from } => node_added(old.node_list(), from@, new.node_list()) && new.chain()
            == old.chain() && new.own_config() == old.own_config() && actions.len() == 0,
        Message::Ack { from } => node_acked(old.node_list(), from@, new.node_list()) && new.chain()
            == old.chain() && new.own_config() == old.own_config() && actions.len() == 0,
        Message::SendPeers { peers, from } => {
            &&& unchanged(old, new)
            &&& actions.len() == 2
            &&& actions[0] == old.ack_to(from)
            &&& actions[1] matches Action::AddPeers { candidates }
            &&& texts(actions[1]->candidates@) == split_semicolons(peers@)
        },
        Message::Transaction { transaction, from } => transaction_handled(
            old,
            transaction,
            from,
            solvent,
            timestamp,
            new,
            actions,
        ),
        Message::NewBlock { block, from } => block_handled(
            old,
            block,
            from,
            solvent,
            timestamp,
            new,
            actions,
        ),
        _ => unchanged(old, new) && actions.len() == 0,
    }
}

/// A miner: its configuration, the peers it knows, and its chain.
pub struct Miner {
    config: Config,
    nodes: NodeTable,
    blockchain: BlockChain,
}

impl Miner {
    /// The miner keeps its peers sorted by address and its chain well formed.
    pub closed spec fn wf(self) -> bool {
        self.nodes.wf() && chain_well_formed(self.blockchain)
    }

    /// The miner's configuration.
    pub closed spec fn own_config(self) -> Config {
        self.config
    }

    /// The peers the miner knows, in address order.
    pub closed spec fn node_list(self) -> Seq<Node> {
        self.nodes@
    }

    /// The miner's chain.
    pub closed spec fn chain(self) -> BlockChain {
        self.blockchain
    }

    /// The message that acknowledges a peer.
    pub open spec fn ack_to(self, to: String) -> Action {
        Action::Send { to, message: Message::Ack { from: self.own_config().address } }
    }

    /// A miner with no known peers and a new chain paying its wallet.
    pub fn with_config(config: Config) -> (miner: Miner)
        ensures
            miner.wf(),
            miner.own_config() == config,
            miner.node_list() == Seq::<Node>::empty(),
            miner.chain().prev_blocks@.len() == 1,
            is_genesis_block(miner.chain().prev_blocks@[0]),
            block_follows(
                miner.chain().prev_blocks@[0],
                config.wallet,
                miner.chain().current_block.header.timestamp,
                miner.chain().current_block,
            ),
    {
        let wallet = config.wallet;
        Miner { config, nodes: NodeTable::new(), blockchain: BlockChain::new(wallet) }
    }

    /// The configuration.
    pub fn config(&self) -> (config: &Config)
        ensures
            *config == self.own_config(),
    {
        &self.config
    }

    /// The known peers.
    pub fn nodes(&self) -> (nodes: &NodeTable)
        requires
            self.wf(),
        ensures
            nodes@ == self.node_list(),
            nodes.wf(),
    {
        &self.nodes
    }

    /// The chain.
    pub fn blockchain(&self) -> (chain: &BlockChain)
        requires
            self.wf(),
        ensures
            *chain == self.chain(),
            chain_well_formed(*chain),
    {
        &self.blockchain
    }

    /// The request to join the network through the node at `address`.
    pub fn join(&self, address: String) -> (action: Action)
        ensures
            action == (Action::Send {
                to: address,
                message: Message::Join { from: self.own_config().address },
            }),
    {
        Action::Send { to: address, message: Message::Join { from: self.config.address.clone() } }
    }

    /// Marks the node at `address` alive, adding it if it is unknown.
    pub fn add_node(&mut self, address: String) -> (r: Result<(), ()>)
        requires
            old(self).wf(),
        ensures
            r is Ok,
            final(self).wf(),
            node_added(old(self).node_list(), address@, final(self).node_list()),
            keys_sorted(final(self).node_list()),
            final(self).chain() == old(self).chain(),
            final(self).own_config() == old(self).own_config(),
    {
        self.nodes.add_node(address);
        Ok(())
    }

    /// Marks the node at `from`, if known, alive and clears its response counter.
    pub fn reset_count(&mut self, from: &str) -> (r: Result<(), ()>)
        requires
            old(self).wf(),
        ensures
            r is Ok,
            final(self).wf(),
            node_acked(old(self).node_list(), from@, final(self).node_list()),
            keys_sorted(final(self).node_list()),
            final(self).chain() == old(self).chain(),
            final(self).own_config() == old(self).own_config(),
    {
        match self.nodes.find(from) {
            Some(i) => {
                let ghost before = self.nodes@;
                let attempts = self.nodes.get(i).last_attempt;
                self.nodes.update_at(i, State::Alive, attempts, 0);
                proof {
                    assert forall|k: int|
                        0 <= k < before.len() && (#[trigger] before[k]).address@ == from@ implies k
                        == i by {
                        lemma_sorted_addresses_unique(before, k, i as int);
                    }
                }
            },
            None => {},
        }
        Ok(())
    }

    /// One round of failure detection: each node's attempt counter goes up by one, and a node
    /// that had more than five attempts becomes questionable.
    pub fn filter_nodes(&mut self) -> (r: Result<(), ()>)
        requires
            old(self).wf(),
        ensures
            r is Ok,
            final(self).wf(),
            final(self).node_list() == old(self).node_list().map_values(|n: Node| attempt_filtered(n)),
            keys_sorted(final(self).node_list()),
            final(self).chain() == old(self).chain(),
            final(self).own_config() == old(self).own_config(),
    {
        let ghost start = self.nodes@;
        let mut i: usize = 0;
        while i < self.nodes.len()
            invariant
                self.nodes.wf(),
                self.blockchain == old(self).blockchain,
                self.config == old(self).config,
                chain_well_formed(self.blockchain),
                self.nodes@.len() == start.len(),
                i <= start.len(),
                forall|j: int| 0 <= j < i ==> self.nodes@[j] == attempt_filtered(#[trigger] start[j]),
                forall|j: int| i <= j < start.len() ==> self.nodes@[j] == #[trigger] start[j],
            decreases start.len() - i,
        {
            let node = self.nodes.get(i);
            let count = node.last_attempt;
            let state = if count > 5 {
                State::Questionable
            } else if count > 10 {
                State::Dead
            } else {
                node.state
            };
            let response = node.last_response;
            self.nodes.update_at(i, state, bump(count), response);
            i = i + 1;
        }
        assert(self.nodes@ =~= start.map_values(|n: Node| attempt_filtered(n)));
        Ok(())
    }

    /// The message that sends the known addresses to `address`.
    pub fn send_peers(&self, address: String) -> (action: Action)
        ensures
            action matches Action::Send { to, message: Message::SendPeers { peers, from } } && to
                == address && peers@ == peer_list_text(self.node_list()) && from
                == self.own_config().address,
    {
        let peers = self.nodes.peer_list();
        Action::Send {
            to: address,
            message: Message::SendPeers { peers, from: self.config.address.clone() },
        }
    }

    /// The ping to `address`.
    pub fn send_ping(&self, address: String) -> (action: Action)
        ensures
            action == (Action::Send {
                to: address,
                message: Message::Ping { from: self.own_config().address },
            }),
    {
        Action::Send { to: address, message: Message::Ping { from: self.config.address.clone() } }
    }

    /// The acknowledgement to `address`.
    pub fn send_ack(&self, address: String) -> (action: Action)
        ensures
            action == self.ack_to(address),
    {
        Action::Send { to: address, message: Message::Ack { from: self.config.address.clone() } }
    }

    /// The broadcast of a message to every node not known to be dead, other than this one.
    pub fn send_all(&self, message: Message) -> (action: Action)
        ensures
            action matches Action::Broadcast { targets, message: m } && m == message && texts(targets@)
                == broadcast_targets(self.node_list(), self.own_config().address@),
    {
        let mut to: Vec<String> = Vec::new();
        let mut i: usize = 0;
        while i < self.nodes.len()
            invariant
                i <= self.nodes@.len(),
                texts(to@) == broadcast_targets(self.nodes@.take(i as int), self.config.address@),
            decreases self.nodes@.len() - i,
        {
            let node = self.nodes.get(i);
            proof {
                assert(self.nodes@.take(i + 1).drop_last() =~= self.nodes@.take(i as int));
                assert(self.nodes@.take(i + 1).last() == *node);
            }
            if node.state != State::Dead && compare_keys(node.address.as_str(), self.config.address.as_str())
                != KeyOrder::Equal {
                let ghost before = to@;
                to.push(node.address.clone());
                assert(texts(to@) =~= texts(before).push(node.address@));
            }
            i = i + 1;
        }
        assert(self.nodes@.take(self.nodes@.len() as int) =~= self.nodes@);
        Action::Broadcast { targets: to, message }
    }

    /// One round of the ping schedule: failure detection, then the node with the most
    /// attempts (the last such in order) gets its attempts cleared and its response counter
    /// bumped, and is sent the peer list if it is alive, or a ping otherwise. Gives that node
    /// and the message for it, or nothing when no peer is known.
    pub fn schedule_ping(&mut self) -> (out: Option<(Node, Action)>)
        requires
            old(self).wf(),
        ensures
            final(self).wf(),
            pinged(*old(self), *final(self), out),
    {
        let _ = self.filter_nodes();
        let ghost f = self.nodes@;
        let n = self.nodes.len();
        if n == 0 {
            return None;
        }
        let mut best: usize = 0;
        let mut i: usize = 1;
        while i < n
            invariant
                n == self.nodes@.len(),
                best < i <= n,
                forall|j: int|
                    0 <= j < i ==> (#[trigger] self.nodes@[j]).last_attempt <= self.nodes@[best as int].last_attempt,
                forall|j: int|
                    best < j < i ==> (#[trigger] self.nodes@[j]).last_attempt < self.nodes@[best as int].last_attempt,
            decreases n - i,
        {
            if self.nodes.get(i).last_attempt >= self.nodes.get(best).last_attempt {
                best = i;
            }
            i = i + 1;
        }
        assert(is_ping_choice(f, best as int));
        let node = self.nodes.get(best);
        let state = node.state;
        let response = node.last_response;
        let address = node.address.clone();
        self.nodes.update_at(best, state, 0, bump(response));
        let snapshot = self.nodes.get(best).copy();
        let action = match state {
            State::Alive => self.send_peers(address),
            _ => self.send_ping(address),
        };
        Some((snapshot, action))
    }

    /// One proof-of-work attempt with `nonce`. When the current block's digest meets the
    /// difficulty, the block is broadcast and sealed, and a fresh block stamped `timestamp` is
    /// opened.
    pub fn mine_at(&mut self, nonce: u64, timestamp: i64) -> (out: Option<Action>)
        requires
            old(self).wf(),
        ensures
            final(self).wf(),
            mined(*old(self), nonce, timestamp, *final(self), out),
    {
        let found = self.blockchain.current_block.prove_work_with_nonce(nonce);
        if found && self.blockchain.current_block.header.index < u64::MAX {
            let block = self.blockchain.current_block.copy();
            let action = self.send_all(Message::NewBlock { block, from: self.config.address.clone() });
            let wallet = self.config.wallet;
            let ghost tried = self.blockchain;
            self.blockchain.add_current_block_at(wallet, timestamp);
            proof {
                sealing_current_keeps_chain_well_formed(tried, wallet, timestamp, self.blockchain);
            }
            Some(action)
        } else {
            None
        }
    }

    /// One proof-of-work attempt with a random nonce, reading the clock for the block that
    /// follows a found one.
    pub fn mine(&mut self) -> (out: Option<Action>)
        requires
            old(self).wf(),
        ensures
            final(self).wf(),
            exists|nonce: u64, timestamp: i64| mined(*old(self), nonce, timestamp, *final(self), out),
    {
        let nonce = random_nonce();
        let timestamp = now_timestamp();
        self.mine_at(nonce, timestamp)
    }

    fn on_transaction(
        &mut self,
        transaction: SignedTransaction,
        from: String,
        solvent: &Vec<Public>,
        timestamp: i64,
    ) -> (actions: Vec<Action>)
        requires
            old(self).wf(),
            signature_well_sized(transaction),
        ensures
            final(self).wf(),
            transaction_handled(*old(self), transaction, from, solvent@, timestamp, *final(self), actions@),
    {
        let copy = transaction.copy();
        let ghost before = self.blockchain;
        let added = self.blockchain.add_transaction_at(copy, solvent, timestamp);
        let mut actions: Vec<Action> = Vec::new();
        if added {
            proof {
                adding_transaction_keeps_chain_well_formed(before, timestamp, self.blockchain);
                assert(self.blockchain.current_block.transactions@.drop_last() =~= before.current_block.transactions@);
            }
            actions.push(self.send_all(Message::Transaction { transaction, from }));
        }
        actions
    }

    fn on_new_block(
        &mut self,
        block: Block,
        from: String,
        solvent: &Vec<Public>,
        timestamp: i64,
    ) -> (actions: Vec<Action>)
        requires
            old(self).wf(),
            (block.header.index == old(self).chain().current_block.header.index
                && old(self).chain().current_block.header.index < u64::MAX)
                ==> !check_meets_short_signature(block.transactions@, solvent@),
        ensures
            final(self).wf(),
            block_handled(*old(self), block, from, solvent@, timestamp, *final(self), actions@),
    {
        let mut actions: Vec<Action> = Vec::new();
        let index = self.blockchain.current_block.header.index;
        if block.header.index == index && index < u64::MAX {
            let copy = block.copy();
            proof {
                same_block_alike(copy, block, solvent@);
            }
            let ghost before = self.blockchain;
            let wallet = self.config.wallet;
            if self.blockchain.receive_new_block_at(copy, wallet, solvent, timestamp) {
                proof {
                    receiving_keeps_chain_well_formed(before, copy, wallet, timestamp, true, self.blockchain);
                    assert(self.blockchain.prev_blocks@.drop_last() =~= before.prev_blocks@);
                }
                actions.push(self.send_all(Message::NewBlock { block, from }));
            }
        }
        actions
    }

    /// Whether handling the message meets no signature too short to check.
    pub fn can_check(&self, message: &Message, solvent: &Vec<Public>) -> (ok: bool)
        ensures
            ok == message_checkable(*self, *message, solvent@),
    {
        match message {
            Message::Transaction { transaction, .. } => transaction.signature.len() >= 64,
            Message::NewBlock { block, .. } => {
                let index = self.blockchain.current_block.header.index;
                if block.header.index == index && index < u64::MAX {
                    !block.meets_short_signature(solvent)
                } else {
                    true
                }
            },
            _ => true,
        }
    }

    /// What the miner does with a message from a peer, reading the clock for the blocks it
    /// stamps. A ping is acknowledged; a join adds the peer; an acknowledgement marks the peer
    /// alive; a peer list is acknowledged and its entries handed on for parsing; a new valid
    /// transaction is added and broadcast; a valid block with the current index is sealed and
    /// broadcast; anything else is ignored.
    pub fn handle_message(&mut self, message: Message, solvent: &Vec<Public>) -> (actions: Vec<Action>)
        requires
            old(self).wf(),
            message_checkable(*old(self), message, solvent@),
        ensures
            final(self).wf(),
            exists|timestamp: i64| handled(*old(self), message, solvent@, timestamp, *final(self), actions@),
    {
        let timestamp = now_timestamp();
        self.handle_message_at(message, solvent, timestamp)
    }

    /// What the miner does with a message from a peer when the clock reads `timestamp`.
    pub fn handle_message_at(&mut self, message: Message, solvent: &Vec<Public>, timestamp: i64) -> (actions: Vec<Action>)
        requires
            old(self).wf(),
            message_checkable(*old(self), message, solvent@),
        ensures
            final(self).wf(),
            handled(*old(self), message, solvent@, timestamp, *final(self), actions@),
    {
        match message {
            Message::Ping { from } => {
                let mut actions: Vec<Action> = Vec::new();
                actions.push(self.send_ack(from));
                assert(actions@ =~= seq![old(self).ack_to(from)]);
                actions
            },
            Message::Join { from } => {
                let _ = self.add_node(from);
                Vec::new()
            },
            Message::Ack { from } => {
                let _ = self.reset_count(from.as_str());
                Vec::new()
            },
            Message::SendPeers { peers, from } => {
                let mut actions: Vec<Action> = Vec::new();
                actions.push(self.send_ack(from));
                actions.push(Action::AddPeers { candidates: split_peers(peers.as_str()) });
                actions
            },
            Message::Transaction { transaction, from } => self.on_transaction(
                transaction,
                from,
                solvent,
                timestamp,
            ),
            Message::NewBlock { block, from } => self.on_new_block(block, from, solvent, timestamp),
            _ => Vec::new(),
        }
    }
}

} // verus!
