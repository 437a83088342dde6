use vstd::prelude::*;

use crate::consensus::miner::{
    attempt_filtered, broadcast_targets, node_acked, split_semicolons,
};
use crate::consensus::peers::silence_filtered;
use crate::consensus::node::{
    has_address, keys_sorted, lemma_sorted_addresses_unique, node_added, peer_list_text, Node,
    State,
};

verus! {

/// Failure detection never declares a node dead: a node is dead after a round only if it was
/// dead before.
pub proof fn detection_never_declares_dead(n: Node)
    ensures
        attempt_filtered(n).state == State::Dead ==> n.state == State::Dead,
{
}

/// The gossip node's failure detection never declares a node dead either.
pub proof fn silence_never_declares_dead(n: Node)
    ensures
        silence_filtered(n).state == State::Dead ==> n.state == State::Dead,
{
}

/// After a join of `address`, the table knows `address`, and the node with it is alive.
pub proof fn joined_node_is_alive(old: Seq<Node>, address: Seq<char>, new: Seq<Node>)
    requires
        keys_sorted(old),
        keys_sorted(new),
        node_added(old, address, new),
    ensures
        has_address(new, address),
        forall|i: int|
            0 <= i < new.len() && (#[trigger] new[i]).address@ == address ==> new[i].state
                == State::Alive,
{
    if has_address(old, address) {
        let k = choose|k: int| 0 <= k < old.len() && (#[trigger] old[k]).address@ == address;
        assert(new == old.update(k, Node { state: State::Alive, ..old[k] }));
        assert(new[k].address@ == address);
        assert forall|i: int|
            0 <= i < new.len() && (#[trigger] new[i]).address@ == address implies new[i].state
            == State::Alive by {
            lemma_sorted_addresses_unique(new, i, k);
        }
    } else {
        let p = choose|p: int|
            0 <= p <= old.len() && new.len() == old.len() + 1 && new.remove(p) == old && (
            #[trigger] new[p]).address@ == address && new[p].state == State::Alive
                && new[p].last_attempt == 0 && new[p].last_response == 0;
        assert forall|i: int|
            0 <= i < new.len() && (#[trigger] new[i]).address@ == address implies new[i].state
            == State::Alive by {
            lemma_sorted_addresses_unique(new, i, p);
        }
    }
}

/// Joining twice is joining once: a second join of the same address changes nothing.
pub proof fn joining_twice_is_joining_once(
    old: Seq<Node>,
    address: Seq<char>,
    mid: Seq<Node>,
    new: Seq<Node>,
)
    requires
        keys_sorted(old),
        keys_sorted(mid),
        node_added(old, address, mid),
        node_added(mid, address, new),
    ensures
        new == mid,
{
    joined_node_is_alive(old, address, mid);
    let k = choose|k: int| 0 <= k < mid.len() && (#[trigger] mid[k]).address@ == address;
    assert(new == mid.update(k, Node { state: State::Alive, ..mid[k] }));
    assert(mid[k] == Node { state: State::Alive, ..mid[k] });
    assert(new =~= mid);
}

/// After an acknowledgement from a known peer, that peer is alive and its response counter
/// is zero.
pub proof fn acked_node_is_alive(old: Seq<Node>, address: Seq<char>, new: Seq<Node>)
    requires
        keys_sorted(old),
        node_acked(old, address, new),
        has_address(old, address),
    ensures
        forall|i: int|
            0 <= i < new.len() && (#[trigger] new[i]).address@ == address ==> new[i].state
                == State::Alive && new[i].last_response == 0,
{
    let k = choose|k: int| 0 <= k < old.len() && (#[trigger] old[k]).address@ == address;
    assert(new == old.update(k, Node { state: State::Alive, last_response: 0, ..old[k] }));
    assert forall|i: int|
        0 <= i < new.len() && (#[trigger] new[i]).address@ == address implies new[i].state
        == State::Alive && new[i].last_response == 0 by {
        if i != k {
            assert(new[i] == old[i]);
            lemma_sorted_addresses_unique(old, i, k);
        }
    }
}

/// A broadcast never goes to the node itself, nor to a node known to be dead, and it reaches
/// every other node.
pub proof fn broadcast_reaches_live_peers(nodes: Seq<Node>, own: Seq<char>)
    ensures
        forall|t: Seq<char>|
            #[trigger] broadcast_targets(nodes, own).contains(t) <==> (t != own && exists|i: int|
                0 <= i < nodes.len() && (#[trigger] nodes[i]).address@ == t && nodes[i].state
                    != State::Dead),
    decreases nodes.len(),
{
    if nodes.len() > 0 {
        let rest = nodes.drop_last();
        broadcast_reaches_live_peers(rest, own);
        let targets = broadcast_targets(nodes, own);
        let last = nodes.last();
        assert forall|t: Seq<char>|
            #[trigger] targets.contains(t) <==> (t != own && exists|i: int|
                0 <= i < nodes.len() && (#[trigger] nodes[i]).address@ == t && nodes[i].state
                    != State::Dead) by {
            if targets.contains(t) {
                if broadcast_targets(rest, own).contains(t) {
                    let i = choose|i: int|
                        0 <= i < rest.len() && (#[trigger] rest[i]).address@ == t && rest[i].state
                            != State::Dead;
                    assert(nodes[i] == rest[i]);
                } else {
                    assert(last.state != State::Dead && last.address@ != own);
                    let j = targets.len() - 1;
                    let k = choose|k: int| 0 <= k < targets.len() && targets[k] == t;
                    assert(targets == broadcast_targets(rest, own).push(last.address@));
                    if k < j {
                        assert(broadcast_targets(rest, own)[k] == t);
                    }
                    assert(nodes[nodes.len() - 1] == last);
                }
            }
            if t != own && exists|i: int|
                0 <= i < nodes.len() && (#[trigger] nodes[i]).address@ == t && nodes[i].state
                    != State::Dead {
                let i = choose|i: int|
                    0 <= i < nodes.len() && (#[trigger] nodes[i]).address@ == t && nodes[i].state
                        != State::Dead;
                if i < nodes.len() - 1 {
                    assert(rest[i] == nodes[i]);
                    assert(broadcast_targets(rest, own).contains(t));
                    let k = choose|k: int|
                        0 <= k < broadcast_targets(rest, own).len() && broadcast_targets(
                            rest,
                            own,
                        )[k] == t;
                    if last.state != State::Dead && last.address@ != own {
                        assert(targets[k] == t);
                    } else {
                        assert(targets[k] == t);
                    }
                } else {
                    assert(targets == broadcast_targets(rest, own).push(t));
                    assert(targets[targets.len() - 1] == t);
                }
            }
        }
    }
}

/// The addresses of the nodes, in order.
pub open spec fn addresses(nodes: Seq<Node>) -> Seq<Seq<char>> {
    Seq::new(nodes.len(), |i: int| nodes[i].address@)
}

/// Cutting `s` followed by a text without semicolons extends the last piece of `s`.
pub proof fn lemma_split_append_plain(s: Seq<char>, t: Seq<char>)
    requires
        !t.contains(';'),
    ensures
        split_semicolons(s + t).len() == split_semicolons(s).len(),
        split_semicolons(s + t) == split_semicolons(s).update(
            split_semicolons(s).len() - 1,
            split_semicolons(s).last() + t,
        ),
    decreases t.len(),
{
    crate::consensus::miner::lemma_split_nonempty(s);
    if t.len() == 0 {
        assert(s + t =~= s);
        assert(split_semicolons(s).last() + t =~= split_semicolons(s).last());
        assert(split_semicolons(s).update(split_semicolons(s).len() - 1, split_semicolons(s).last())
            =~= split_semicolons(s));
    } else {
        let u = t.drop_last();
        assert(!u.contains(';')) by {
            if u.contains(';') {
                let k = choose|k: int| 0 <= k < u.len() && u[k] == ';';
                assert(t[k] == ';');
            }
        }
        lemma_split_append_plain(s, u);
        assert((s + t).drop_last() =~= s + u);
        assert((s + t).last() == t.last());
        assert(t.last() != ';') by {
            assert(t[t.len() - 1] == t.last());
        }
        let r = split_semicolons(s + u);
        let q = split_semicolons(s);
        assert(r.len() == q.len());
        assert(r.last() == r[r.len() - 1]);
        assert(r[q.len() - 1] == q.last() + u);
        assert(split_semicolons(s + t) == r.update(r.len() - 1, r.last().push(t.last())));
        assert((q.last() + u).push(t.last()) =~= q.last() + t);
        assert(r.last().push(t.last()) == q.last() + t);
        assert forall|i: int| 0 <= i < q.len() - 1 implies r[i] == q[i] by {}
        assert(split_semicolons(s + t) =~= split_semicolons(s).update(
            split_semicolons(s).len() - 1,
            split_semicolons(s).last() + t,
        ));
    }
}

/// A peer list read back gives the addresses it was made of, in order, and then one empty
/// piece after the last semicolon, as long as no address holds a semicolon.
pub proof fn peer_list_reads_back(nodes: Seq<Node>)
    requires
        forall|i: int| 0 <= i < nodes.len() ==> !(#[trigger] nodes[i]).address@.contains(';'),
    ensures
        split_semicolons(peer_list_text(nodes)) == addresses(nodes).push(seq![]),
    decreases nodes.len(),
{
    if nodes.len() == 0 {
        assert(split_semicolons(seq![]) =~= addresses(nodes).push(seq![]));
    } else {
        let rest = nodes.drop_last();
        assert forall|i: int| 0 <= i < rest.len() implies !(#[trigger] rest[i]).address@.contains(
            ';',
        ) by {
            assert(rest[i] == nodes[i]);
        }
        peer_list_reads_back(rest);
        let prefix = peer_list_text(rest);
        let address = nodes.last().address@;
        assert(!address.contains(';')) by {
            assert(nodes[nodes.len() - 1] == nodes.last());
        }
        lemma_split_append_plain(prefix, address);
        let text = peer_list_text(nodes);
        assert(text == prefix + address + seq![';']);
        assert(text.drop_last() =~= prefix + address);
        assert(split_semicolons(prefix).last() =~= Seq::<char>::empty());
        assert(split_semicolons(prefix + address) =~= addresses(rest).push(address));
        assert(split_semicolons(text) =~= addresses(nodes).push(seq![]));
    }
}

/// Some node has this address and is alive.
pub open spec fn has_alive(nodes: Seq<Node>, address: Seq<char>) -> bool {
    exists|i: int|
        0 <= i < nodes.len() && (#[trigger] nodes[i]).address@ == address && nodes[i].state
            == State::Alive
}

/// A join keeps every node that was alive before: it is still known, and still alive.
pub proof fn join_keeps_alive_nodes(
    old: Seq<Node>,
    address: Seq<char>,
    new: Seq<Node>,
    other: Seq<char>,
)
    requires
        node_added(old, address, new),
        has_alive(old, other),
    ensures
        has_alive(new, other),
{
    let i = choose|i: int|
        0 <= i < old.len() && (#[trigger] old[i]).address@ == other && old[i].state
            == State::Alive;
    if has_address(old, address) {
        let k = choose|k: int| 0 <= k < old.len() && (#[trigger] old[k]).address@ == address;
        assert(new == old.update(k, Node { state: State::Alive, ..old[k] }));
        assert(new[i].address@ == other && new[i].state == State::Alive);
    } else {
        let p = choose|p: int|
            0 <= p <= old.len() && new.len() == old.len() + 1 && new.remove(p) == old && (
            #[trigger] new[p]).address@ == address && new[p].state == State::Alive
                && new[p].last_attempt == 0 && new[p].last_response == 0;
        if i < p {
            assert(new.remove(p)[i] == new[i]);
            assert(new[i] == old[i]);
        } else {
            assert(new.remove(p)[i] == new[i + 1]);
            assert(new[i + 1] == old[i]);
        }
    }
}

/// Joining a list of addresses one after another leaves each of them known and alive.
pub proof fn joined_list_is_alive(tables: Seq<Seq<Node>>, joined: Seq<Seq<char>>)
    requires
        tables.len() == joined.len() + 1,
        forall|k: int| 0 <= k < tables.len() ==> keys_sorted(#[trigger] tables[k]),
        forall|k: int|
            0 <= k < joined.len() ==> node_added(#[trigger] tables[k], joined[k], tables[k + 1]),
    ensures
        forall|k: int| 0 <= k < joined.len() ==> has_alive(tables.last(), #[trigger] joined[k]),
    decreases joined.len(),
{
    if joined.len() > 0 {
        let n = joined.len() - 1;
        let before = tables.drop_last();
        let earlier = joined.drop_last();
        assert forall|k: int| 0 <= k < earlier.len() implies node_added(
            #[trigger] before[k],
            earlier[k],
            before[k + 1],
        ) by {
            assert(node_added(tables[k], joined[k], tables[k + 1]));
        }
        assert forall|k: int| 0 <= k < before.len() implies keys_sorted(#[trigger] before[k]) by {
            assert(keys_sorted(tables[k]));
        }
        joined_list_is_alive(before, earlier);
        assert(before.last() == tables[n]);
        assert(keys_sorted(tables[n]));
        assert(keys_sorted(tables[n + 1]));
        assert(node_added(tables[n], joined[n], tables[n + 1]));
        assert(tables.last() == tables[n + 1]);
        joined_node_is_alive(tables[n], joined[n], tables[n + 1]);
        let j = choose|j: int|
            0 <= j < tables[n + 1].len() && (#[trigger] tables[n + 1][j]).address@ == joined[n];
        assert(tables[n + 1][j].state == State::Alive);
        assert forall|k: int| 0 <= k < joined.len() implies has_alive(
            tables.last(),
            #[trigger] joined[k],
        ) by {
            if k < n {
                assert(earlier[k] == joined[k]);
                join_keeps_alive_nodes(tables[n], joined[n], tables[n + 1], joined[k]);
            }
        }
    }
}

/// A node that joins, one after another, the pieces of a peer list it received knows every
/// peer of the sender afterwards, alive, as long as no address holds a semicolon.
pub proof fn received_peers_are_alive(sender: Seq<Node>, tables: Seq<Seq<Node>>)
    requires
        forall|i: int| 0 <= i < sender.len() ==> !(#[trigger] sender[i]).address@.contains(';'),
        tables.len() == sender.len() + 1,
        forall|k: int| 0 <= k < tables.len() ==> keys_sorted(#[trigger] tables[k]),
        forall|k: int|
            0 <= k < sender.len() ==> node_added(
                #[trigger] tables[k],
                split_semicolons(peer_list_text(sender))[k],
                tables[k + 1],
            ),
    ensures
        forall|i: int| 0 <= i < sender.len() ==> has_alive(tables.last(), (#[trigger] sender[i]).address@),
{
    peer_list_reads_back(sender);
    let joined = addresses(sender);
    assert forall|k: int| 0 <= k < joined.len() implies node_added(
        #[trigger] tables[k],
        joined[k],
        tables[k + 1],
    ) by {
        assert(split_semicolons(peer_list_text(sender))[k] == addresses(sender).push(seq![])[k]);
        assert(node_added(tables[k], split_semicolons(peer_list_text(sender))[k], tables[k + 1]));
    }
    joined_list_is_alive(tables, joined);
    assert forall|i: int| 0 <= i < sender.len() implies has_alive(
        tables.last(),
        (#[trigger] sender[i]).address@,
    ) by {
        assert(joined[i] == sender[i].address@);
    }
}

/// A round of the miner's failure detection leaves the state of a node with at most five
/// unanswered attempts as it was, marks one with more questionable, and never makes a node
/// alive: only an acknowledgement or a join does.
pub proof fn detection_round_states(n: Node)
    ensures
        n.last_attempt <= 5 ==> attempt_filtered(n).state == n.state,
        n.last_attempt > 5 ==> attempt_filtered(n).state == State::Questionable,
        attempt_filtered(n).state == State::Alive ==> n.state == State::Alive,
        attempt_filtered(n).address == n.address,
        attempt_filtered(n).last_response == n.last_response,
{
}

/// The gossip node's failure detection likewise leaves the state of a node silent for at
/// most five rounds as it was, marks one silent longer questionable, and never makes a node
/// alive.
pub proof fn silence_round_states(n: Node)
    ensures
        n.last_attempt <= 5 ==> silence_filtered(n).state == n.state,
        n.last_attempt > 5 ==> silence_filtered(n).state == State::Questionable,
        silence_filtered(n).state == State::Alive ==> n.state == State::Alive,
        silence_filtered(n).address == n.address,
        silence_filtered(n).last_attempt == n.last_attempt,
{
}

} // verus!
