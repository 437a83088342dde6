use rand::Rng;
use vstd::prelude::*;

use crate::consensus::config::Config;
use crate::consensus::message::{texts, Action, Message};
use crate::consensus::miner::{bump, bumped, split_peers, split_semicolons};
use crate::consensus::node::{
    debug_key_list, has_address, lemma_sorted_addresses_unique, node_added, Node,
    NodeTable, State,
};

verus! {

/// Draws a number below `bound` with `rand::thread_rng().gen_range(0, bound)`, which panics
/// when the range is empty. The contract claims only that the number is below the bound, as
/// the crate documents.
#[verifier::external_body]
fn random_below(bound: usize) -> (n: usize)
    requires
        bound > 0,
    ensures
        n < bound,
{
    let mut rng = rand::thread_rng();
    rng.gen_range(0, bound)
}

/// The state a node gets from its count of silent rounds. The second threshold is never
/// reached, since a count above twenty-five is above five.
pub open spec fn state_for_silence(count: usize, state: State) -> State {
    if count > 5 {
        State::Questionable
    } else if count > 25 {
        State::Dead
    } else {
        state
    }
}

/// A node after one round of the gossip node's failure detection.
pub open spec fn silence_filtered(n: Node) -> Node {
    Node { state: state_for_silence(n.last_attempt, n.state), ..n }
}

/// A node after one more silent round.
pub open spec fn counted(n: Node) -> Node {
    Node { last_attempt: bumped(n.last_attempt), ..n }
}

/// `new` is `old` after an acknowledgement from `address`: that node, if known, is alive and
/// its count of silent rounds is zero.
pub open spec fn node_heard(old: Seq<Node>, address: Seq<char>, new: Seq<Node>) -> bool {
    if has_address(old, address) {
        forall|i: int|
            0 <= i < old.len() && (#[trigger] old[i]).address@ == address ==> new == old.update(
                i,
                Node { state: State::Alive, last_attempt: 0, ..old[i] },
            )
    } else {
        new == old
    }
}

/// A gossip node that only keeps track of its peers.
pub struct Peers {
    config: Config,
    nodes: NodeTable,
}

impl Peers {
    /// The gossip node keeps its peers sorted by address.
    pub closed spec fn wf(self) -> bool {
        self.nodes.wf()
    }

    /// The configuration.
    pub closed spec fn own_config(self) -> Config {
        self.config
    }

    /// The peers known, in address order.
    pub closed spec fn node_list(self) -> Seq<Node> {
        self.nodes@
    }

    /// A gossip node with no known peers.
    pub fn with_config(config: Config) -> (peers: Peers)
        ensures
            peers.wf(),
            peers.own_config() == config,
            peers.node_list() == Seq::<Node>::empty(),
    {
        Peers { config, nodes: NodeTable::new() }
    }

    /// The known peers.
    pub fn nodes(&self) -> (nodes: &NodeTable)
        ensures
            nodes@ == self.node_list(),
    {
        &self.nodes
    }

    /// The request to join the network through the node at `address`.
    pub fn join(&self, address: String) -> (action: Action)
        ensures
            action == (Action::Send {
                to: address,
                message: Message::Join { from: self.own_config().address },
            }),
    {
        Action::Send { to: address, message: Message::Join { from: self.config.address.clone() } }
    }

    /// Marks the node at `address` alive, adding it if it is unknown.
    pub fn add_node(&mut self, address: String) -> (r: Result<(), ()>)
        requires
            old(self).wf(),
        ensures
            r is Ok,
            final(self).wf(),
            node_added(old(self).node_list(), address@, final(self).node_list()),
            final(self).own_config() == old(self).own_config(),
    {
        self.nodes.add_node(address);
        Ok(())
    }

    /// Marks the node at `from`, if known, alive and clears its count of silent rounds.
    pub fn reset_count(&mut self, from: &str) -> (r: Result<(), ()>)
        requires
            old(self).wf(),
        ensures
            r is Ok,
            final(self).wf(),
            node_heard(old(self).node_list(), from@, final(self).node_list()),
            final(self).own_config() == old(self).own_config(),
    {
        match self.nodes.find(from) {
            Some(i) => {
                let ghost before = self.nodes@;
                let response = self.nodes.get(i).last_response;
                self.nodes.update_at(i, State::Alive, 0, response);
                proof {
                    assert forall|k: int|
                        0 <= k < before.len() && (#[trigger] before[k]).address@ == from@ implies k
                        == i by {
                        lemma_sorted_addresses_unique(before, k, i as int);
                    }
                }
            },
            None => {},
        }
        Ok(())
    }

    /// Marks the nodes silent for more than five rounds questionable.
    pub fn filter_nodes(&mut self) -> (r: Result<(), ()>)
        requires
            old(self).wf(),
        ensures
            r is Ok,
            final(self).wf(),
            final(self).node_list() == old(self).node_list().map_values(|n: Node| silence_filtered(n)),
            final(self).own_config() == old(self).own_config(),
    {
        let ghost start = self.nodes@;
        let mut i: usize = 0;
        while i < self.nodes.len()
            invariant
                self.nodes.wf(),
                self.config == old(self).config,
                self.nodes@.len() == start.len(),
                i <= start.len(),
                forall|j: int| 0 <= j < i ==> self.nodes@[j] == silence_filtered(#[trigger] start[j]),
                forall|j: int| i <= j < start.len() ==> self.nodes@[j] == #[trigger] start[j],
            decreases start.len() - i,
        {
            let node = self.nodes.get(i);
            let count = node.last_attempt;
            let state = if count > 5 {
                State::Questionable
            } else if count > 25 {
                State::Dead
            } else {
                node.state
            };
            let response = node.last_response;
            self.nodes.update_at(i, state, count, response);
            i = i + 1;
        }
        assert(self.nodes@ =~= start.map_values(|n: Node| silence_filtered(n)));
        Ok(())
    }

    /// Counts one more silent round for every node.
    pub fn increment_counts(&mut self) -> (r: Result<(), ()>)
        requires
            old(self).wf(),
        ensures
            r is Ok,
            final(self).wf(),
            final(self).node_list() == old(self).node_list().map_values(|n: Node| counted(n)),
            final(self).own_config() == old(self).own_config(),
    {
        let ghost start = self.nodes@;
        let mut i: usize = 0;
        while i < self.nodes.len()
            invariant
                self.nodes.wf(),
                self.config == old(self).config,
                self.nodes@.len() == start.len(),
                i <= start.len(),
                forall|j: int| 0 <= j < i ==> self.nodes@[j] == counted(#[trigger] start[j]),
                forall|j: int| i <= j < start.len() ==> self.nodes@[j] == #[trigger] start[j],
            decreases start.len() - i,
        {
            let node = self.nodes.get(i);
            let state = node.state;
            let count = node.last_attempt;
            let response = node.last_response;
            self.nodes.update_at(i, state, bump(count), response);
            i = i + 1;
        }
        assert(self.nodes@ =~= start.map_values(|n: Node| counted(n)));
        Ok(())
    }

    /// What a server round does before it reads a message: count a silent round for every
    /// node, then mark the long-silent ones questionable.
    pub fn tick(&mut self)
        requires
            old(self).wf(),
        ensures
            final(self).wf(),
            final(self).node_list() == old(self).node_list().map_values(
                |n: Node| silence_filtered(counted(n)),
            ),
            final(self).own_config() == old(self).own_config(),
    {
        let _ = self.increment_counts();
        let _ = self.filter_nodes();
        assert(self.node_list() =~= old(self).node_list().map_values(
            |n: Node| silence_filtered(counted(n)),
        ));
    }

    /// The message that sends the known addresses, as a debug list, to `address`.
    pub fn send_peers(&self, address: String) -> (action: Action)
        ensures
            action matches Action::Send { to, message: Message::SendPeers { peers, from } } && to
                == address && peers@ == debug_key_list(self.node_list()) && from
                == self.own_config().address,
    {
        let peers = self.nodes.debug_keys();
        Action::Send {
            to: address,
            message: Message::SendPeers { peers, from: self.config.address.clone() },
        }
    }

    /// The ping to `address`.
    pub fn send_ping(&self, address: String) -> (action: Action)
        ensures
            action == (Action::Send {
                to: address,
                message: Message::Ping { from: self.own_config().address },
            }),
    {
        Action::Send { to: address, message: Message::Ping { from: self.config.address.clone() } }
    }

    /// The acknowledgement to `address`.
    pub fn send_ack(&self, address: String) -> (action: Action)
        ensures
            action == (Action::Send {
                to: address,
                message: Message::Ack { from: self.own_config().address },
            }),
    {
        Action::Send { to: address, message: Message::Ack { from: self.config.address.clone() } }
    }

    /// The gossip to the node at position `draw` modulo the number of peers: the peer list,
    /// unless that node is dead.
    pub fn ping_target(&self, draw: usize) -> (action: Option<Action>)
        ensures
            self.node_list().len() == 0 ==> action is None,
            self.node_list().len() > 0 ==> gossip_to(
                self,
                (draw as int) % (self.node_list().len() as int),
                action,
            ),
    {
        let n = self.nodes.len();
        if n == 0 {
            return None;
        }
        let node = self.nodes.get(draw % n);
        match node.state {
            State::Dead => None,
            _ => Some(self.send_peers(node.address.clone())),
        }
    }

    /// One round of the gossip schedule: a random peer (the only one when there is one) gets
    /// the peer list, unless it is dead.
    pub fn schedule_ping(&self) -> (action: Option<Action>)
        requires
            self.node_list().len() <= usize::MAX / 10,
        ensures
            self.node_list().len() == 0 ==> action is None,
            self.node_list().len() == 1 ==> gossip_to(self, 0, action),
            self.node_list().len() > 0 ==> exists|i: int|
                0 <= i < self.node_list().len() && #[trigger] gossip_to(self, i, action),
    {
        let n = self.nodes.len();
        if n == 0 {
            return None;
        }
        let draw = if n == 1 {
            0
        } else {
            random_below(n * 10)
        };
        let action = self.ping_target(draw);
        assert(gossip_to(self, (draw as int) % (n as int), action));
        action
    }

    /// What the gossip node does with a message: a ping is acknowledged, a join adds the peer,
    /// an acknowledgement marks the peer alive, a peer list is handed on for parsing, and
    /// anything else is ignored.
    pub fn handle_message(&mut self, message: Message) -> (actions: Vec<Action>)
        requires
            old(self).wf(),
        ensures
            final(self).wf(),
            final(self).own_config() == old(self).own_config(),
            gossip_handled(old(self).node_list(), old(self).own_config(), message, final(self).node_list(), actions@),
    {
        match message {
            Message::Ping { from } => {
                let mut actions: Vec<Action> = Vec::new();
                actions.push(self.send_ack(from));
                actions
            },
            Message::Join { from } => {
                let _ = self.add_node(from);
                Vec::new()
            },
            Message::Ack { from } => {
                let _ = self.reset_count(from.as_str());
                Vec::new()
            },
            Message::SendPeers { peers, .. } => {
                let mut actions: Vec<Action> = Vec::new();
                actions.push(Action::AddPeers { candidates: split_peers(peers.as_str()) });
                actions
            },
            _ => Vec::new(),
        }
    }
}

/// `action` is what a gossip round sends when it picks the node at position `i`.
pub open spec fn gossip_to(peers: &Peers, i: int, action: Option<Action>) -> bool {
    let node = peers.node_list()[i];
    if node.state == State::Dead {
        action is None
    } else {
        &&& action is Some
        &&& action.unwrap() matches Action::Send { to, message: Message::SendPeers { peers: p, from } }
        &&& action.unwrap()->Send_to == node.address
        &&& action.unwrap()->Send_message->SendPeers_peers@ == debug_key_list(peers.node_list())
        &&& action.unwrap()->Send_message->SendPeers_from == peers.own_config().address
    }
}

/// What handling `message` does to the peers `old` of a gossip node configured by `config`.
pub open spec fn gossip_handled(
    old: Seq<Node>,
    config: Config,
    message: Message,
    new: Seq<Node>,
    actions: Seq<Action>,
) -> bool {
    match message {
        Message::Ping { from } => new == old && actions == seq![
            Action::Send { to: from, message: Message::Ack { from: config.address } },
        ],
        Message::Join { from } => node_added(old, from@, new) && actions.len() == 0,
        Message::Ack { from } => node_heard(old, from@, new) && actions.len() == 0,
        Message::SendPeers { peers, .. } => {
            &&& new == old
            &&& actions.len() == 1
            &&& actions[0] matches Action::AddPeers { candidates }
            &&& texts(actions[0]->candidates@) == split_semicolons(peers@)
        },
        _ => new == old && actions.len() == 0,
    }
}

} // verus!
