use vstd::prelude::*;
use vstd::string::{StrSliceExecFns, StringExecFns};

verus! {

/// How a peer is doing, as far as this node can tell.
#[derive(Clone, Copy, PartialEq, Eq, Structural)]
pub enum State {
    Alive,
    Questionable,
    Dead,
}

/// The word a state is shown as.
pub open spec fn state_name(state: State) -> Seq<char> {
    match state {
        State::Alive => "alive"@,
        State::Questionable => "questionable"@,
        State::Dead => "dead"@,
    }
}

impl State {
    /// The word the state is shown as: `alive`, `questionable` or `dead`.
    pub fn name(&self) -> (text: &'static str)
        ensures
            text@ == state_name(*self),
    {
        match self {
            State::Alive => "alive",
            State::Questionable => "questionable",
            State::Dead => "dead",
        }
    }
}

/// std's formatter, carried through the `Debug` impl below unread.
#[verifier::external_type_specification]
#[verifier::external_body]
pub struct ExFormatter<'a>(std::fmt::Formatter<'a>);

/// std's formatting error, carried through the `Debug` impl below unread.
#[verifier::external_type_specification]
#[verifier::external_body]
pub struct ExFmtError(std::fmt::Error);

impl std::fmt::Debug for State {
    /// Writes the state's word, as `name` gives it, with `Formatter::write_str`.
    #[verifier::external_body]
    fn fmt(&self, f: &mut std::fmt::Formatter<'_>) -> std::fmt::Result {
        f.write_str(self.name())
    }
}

/// A known peer: its address text, its state, and two counters of the ping schedule.
#[derive(Clone, Debug)]
pub struct Node {
    pub address: String,
    pub state: State,
    pub last_attempt: usize,
    pub last_response: usize,
}

impl Node {
    /// A copy of the node.
    pub fn copy(&self) -> (c: Node)
        ensures
            c == *self,
    {
        Node {
            address: self.address.clone(),
            state: self.state,
            last_attempt: self.last_attempt,
            last_response: self.last_response,
        }
    }

    /// The node shown as its address, a space, and its state.
    pub fn describe(&self) -> (text: String)
        ensures
            text@ == self.address@ + " "@ + state_name(self.state),
    {
        let mut text = self.address.clone();
        text.append(" ");
        text.append(self.state.name());
        text
    }
}

/// Lexicographic order of texts by character, which for UTF-8 is the byte order that
/// `String`'s `Ord` uses.
pub open spec fn key_lt(a: Seq<char>, b: Seq<char>) -> bool
    decreases a.len(),
{
    if a.len() == 0 {
        b.len() > 0
    } else if b.len() == 0 {
        false
    } else if a[0] != b[0] {
        a[0] < b[0]
    } else {
        key_lt(a.drop_first(), b.drop_first())
    }
}

/// No text is below itself.
pub proof fn lemma_key_lt_irreflexive(a: Seq<char>)
    ensures
        !key_lt(a, a),
    decreases a.len(),
{
    if a.len() > 0 {
        lemma_key_lt_irreflexive(a.drop_first());
    }
}

/// The order is transitive.
pub proof fn lemma_key_lt_transitive(a: Seq<char>, b: Seq<char>, c: Seq<char>)
    requires
        key_lt(a, b),
        key_lt(b, c),
    ensures
        key_lt(a, c),
    decreases a.len(),
{
    if a.len() > 0 && b.len() > 0 && c.len() > 0 && a[0] == b[0] && b[0] == c[0] {
        lemma_key_lt_transitive(a.drop_first(), b.drop_first(), c.drop_first());
    }
}

/// Two different texts are ordered one way or the other.
pub proof fn lemma_key_lt_total(a: Seq<char>, b: Seq<char>)
    requires
        a != b,
    ensures
        key_lt(a, b) || key_lt(b, a),
    decreases a.len(),
{
    if a.len() > 0 && b.len() > 0 && a[0] == b[0] {
        if a.drop_first() == b.drop_first() {
            assert(a =~= seq![a[0]] + a.drop_first());
            assert(b =~= seq![b[0]] + b.drop_first());
        }
        lemma_key_lt_total(a.drop_first(), b.drop_first());
    } else if a.len() == 0 && b.len() == 0 {
        assert(a =~= b);
    }
}

/// The outcome of comparing two texts.
#[derive(Clone, Copy, Debug, PartialEq, Eq, Structural)]
pub enum KeyOrder {
    Less,
    Equal,
    Greater,
}

/// Compares two texts character by character.
pub fn compare_keys(a: &str, b: &str) -> (order: KeyOrder)
    ensures
        order == KeyOrder::Less <==> key_lt(a@, b@),
        order == KeyOrder::Equal <==> a@ == b@,
        order == KeyOrder::Greater <==> key_lt(b@, a@),
{
    proof {
        lemma_key_lt_irreflexive(a@);
        if a@ != b@ {
            lemma_key_lt_total(a@, b@);
        }
    }
    let la = a.unicode_len();
    let lb = b.unicode_len();
    let mut i: usize = 0;
    assert(a@.skip(0) =~= a@);
    assert(b@.skip(0) =~= b@);
    loop
        invariant
            la == a@.len(),
            lb == b@.len(),
            i <= la,
            i <= lb,
            a@.take(i as int) == b@.take(i as int),
            key_lt(a@, b@) == key_lt(a@.skip(i as int), b@.skip(i as int)),
            key_lt(b@, a@) == key_lt(b@.skip(i as int), a@.skip(i as int)),
            !key_lt(a@, a@),
            a@ != b@ ==> key_lt(a@, b@) || key_lt(b@, a@),
        decreases la - i,
    {
        if i == la {
            if i == lb {
                assert(a@ =~= a@.take(i as int));
                assert(b@ =~= b@.take(i as int));
                return KeyOrder::Equal;
            } else {
                return KeyOrder::Less;
            }
        } else if i == lb {
            return KeyOrder::Greater;
        }
        let ca = a.get_char(i);
        let cb = b.get_char(i);
        assert(a@.skip(i as int)[0] == ca);
        assert(b@.skip(i as int)[0] == cb);
        if ca < cb {
            return KeyOrder::Less;
        } else if cb < ca {
            return KeyOrder::Greater;
        }
        proof {
            assert(a@.skip(i as int).drop_first() =~= a@.skip(i + 1));
            assert(b@.skip(i as int).drop_first() =~= b@.skip(i + 1));
            assert(a@.take(i + 1) =~= a@.take(i as int).push(ca));
            assert(b@.take(i + 1) =~= b@.take(i as int).push(cb));
        }
        i = i + 1;
    }
}

} // verus!

verus! {

/// The addresses are strictly increasing, so none occurs twice.
pub open spec fn keys_sorted(nodes: Seq<Node>) -> bool {
    forall|i: int, j: int|
        0 <= i < j < nodes.len() ==> key_lt(#[trigger] nodes[i].address@, #[trigger] nodes[j].address@)
}

/// Some node has this address.
pub open spec fn has_address(nodes: Seq<Node>, address: Seq<char>) -> bool {
    exists|i: int| 0 <= i < nodes.len() && (#[trigger] nodes[i]).address@ == address
}

/// `new` is `old` after a join of `address`: a known node is marked alive, keeping its
/// counters; an unknown one is inserted, alive with zero counters, at its place in the order.
pub open spec fn node_added(old: Seq<Node>, address: Seq<char>, new: Seq<Node>) -> bool {
    if has_address(old, address) {
        forall|i: int|
            0 <= i < old.len() && (#[trigger] old[i]).address@ == address ==> new == old.update(
                i,
                Node { state: State::Alive, ..old[i] },
            )
    } else {
        exists|p: int|
            0 <= p <= old.len() && new.len() == old.len() + 1 && new.remove(p) == old
                && (#[trigger] new[p]).address@ == address && new[p].state == State::Alive
                && new[p].last_attempt == 0 && new[p].last_response == 0
    }
}

/// The addresses of the nodes, each followed by a semicolon.
pub open spec fn peer_list_text(nodes: Seq<Node>) -> Seq<char>
    decreases nodes.len(),
{
    if nodes.len() == 0 {
        seq![]
    } else {
        peer_list_text(nodes.drop_last()) + nodes.last().address@ + seq![';']
    }
}

/// In a sorted table no two nodes share an address.
pub proof fn lemma_sorted_addresses_unique(nodes: Seq<Node>, i: int, j: int)
    requires
        keys_sorted(nodes),
        0 <= i < nodes.len(),
        0 <= j < nodes.len(),
        nodes[i].address@ == nodes[j].address@,
    ensures
        i == j,
{
    lemma_key_lt_irreflexive(nodes[i].address@);
    if i < j {
        assert(key_lt(nodes[i].address@, nodes[j].address@));
    } else if j < i {
        assert(key_lt(nodes[j].address@, nodes[i].address@));
    }
}

/// The text that `Debug` writes for a string: quoted, with its escapes.
pub uninterp spec fn debug_text(s: Seq<char>) -> Seq<char>;

/// Formats a string with std's `Debug` for `str`, through `format!("{:?}", ..)`. The
/// contract claims that the text is the value of `debug_text` on the string.
#[verifier::external_body]
fn debug_string(s: &str) -> (text: String)
    ensures
        text@ == debug_text(s@),
{
    format!("{:?}", s)
}

/// The addresses of the nodes as `Debug` writes them.
pub open spec fn quoted_keys(nodes: Seq<Node>) -> Seq<Seq<char>> {
    Seq::new(nodes.len(), |i: int| debug_text(nodes[i].address@))
}

/// The items separated by a comma and a space.
pub open spec fn debug_join(items: Seq<Seq<char>>) -> Seq<char>
    decreases items.len(),
{
    if items.len() == 0 {
        seq![]
    } else if items.len() == 1 {
        items[0]
    } else {
        debug_join(items.drop_last()) + seq![',', ' '] + items.last()
    }
}

/// The addresses as a debug list.
pub open spec fn debug_key_list(nodes: Seq<Node>) -> Seq<char> {
    seq!['['] + debug_join(quoted_keys(nodes)) + seq![']']
}

/// The peers known to a node, ordered by address text as a `BTreeMap<String, Node>` orders
/// them.
pub struct NodeTable {
    nodes: Vec<Node>,
}

impl View for NodeTable {
    type V = Seq<Node>;

    closed spec fn view(&self) -> Seq<Node> {
        self.nodes@
    }
}

impl NodeTable {
    /// The table keeps its nodes sorted by address.
    pub open spec fn wf(&self) -> bool {
        keys_sorted(self@)
    }

    /// An empty table.
    pub fn new() -> (table: NodeTable)
        ensures
            table@ == Seq::<Node>::empty(),
            table.wf(),
    {
        NodeTable { nodes: Vec::new() }
    }

    /// The number of known peers.
    pub fn len(&self) -> (n: usize)
        ensures
            n == self@.len(),
    {
        self.nodes.len()
    }

    /// The node at a position of the order.
    pub fn get(&self, i: usize) -> (node: &Node)
        requires
            i < self@.len(),
        ensures
            *node == self@[i as int],
    {
        &self.nodes[i]
    }

    /// The position of the node with this address, if any.
    pub fn find(&self, address: &str) -> (found: Option<usize>)
        requires
            self.wf(),
        ensures
            found matches Some(i) ==> i < self@.len() && self@[i as int].address@ == address@,
            found is None ==> !has_address(self@, address@),
    {
        let mut i: usize = 0;
        while i < self.nodes.len()
            invariant
                i <= self@.len(),
                forall|j: int| 0 <= j < i ==> (#[trigger] self@[j]).address@ != address@,
            decreases self@.len() - i,
        {
            if compare_keys(self.nodes[i].address.as_str(), address) == KeyOrder::Equal {
                return Some(i);
            }
            i = i + 1;
        }
        None
    }

    /// Marks the node with this address alive, adding it if it is unknown.
    pub fn add_node(&mut self, address: String)
        requires
            old(self).wf(),
        ensures
            final(self).wf(),
            node_added(old(self)@, address@, final(self)@),
    {
        let ghost key = address@;
        let mut p: usize = 0;
        while p < self.nodes.len() && compare_keys(self.nodes[p].address.as_str(), address.as_str())
            == KeyOrder::Less
            invariant
                p <= self@.len(),
                self.wf(),
                self@ == old(self)@,
                key == address@,
                forall|j: int| 0 <= j < p ==> key_lt(#[trigger] self@[j].address@, key),
            decreases self@.len() - p,
        {
            p = p + 1;
        }
        proof {
            lemma_key_lt_irreflexive(key);
        }
        if p < self.nodes.len() && compare_keys(self.nodes[p].address.as_str(), address.as_str())
            == KeyOrder::Equal {
            let ghost before = self@;
            self.nodes[p].state = State::Alive;
            proof {
                assert(self@ == before.update(p as int, Node { state: State::Alive, ..before[p as int] }));
                assert forall|i: int|
                    0 <= i < before.len() && (#[trigger] before[i]).address@ == key implies i
                    == p by {
                    if i < p {
                        assert(key_lt(before[i].address@, before[p as int].address@));
                    } else if i > p {
                        assert(key_lt(before[p as int].address@, before[i].address@));
                    }
                }
                assert(keys_sorted(self@)) by {
                    assert forall|i: int, j: int| 0 <= i < j < self@.len() implies key_lt(
                        #[trigger] self@[i].address@,
                        #[trigger] self@[j].address@,
                    ) by {
                        assert(key_lt(before[i].address@, before[j].address@));
                    }
                }
            }
        } else {
            let ghost before = self@;
            proof {
                if p < before.len() {
                    lemma_key_lt_total(key, before[p as int].address@);
                    assert(key_lt(key, before[p as int].address@));
                    assert forall|j: int| p < j < before.len() implies key_lt(
                        key,
                        #[trigger] before[j].address@,
                    ) by {
                        lemma_key_lt_transitive(
                            key,
                            before[p as int].address@,
                            before[j].address@,
                        );
                    }
                }
                assert(!has_address(before, key)) by {
                    assert forall|i: int| 0 <= i < before.len() implies (
                    #[trigger] before[i]).address@ != key by {
                        if i >= p {
                            assert(key_lt(key, before[i].address@));
                        }
                    }
                }
            }
            let node = Node { address, state: State::Alive, last_attempt: 0, last_response: 0 };
            self.nodes.insert(p, node);
            proof {
                assert(self@ == before.insert(p as int, node));
                assert(self@.remove(p as int) =~= before);
                assert(self@[p as int] == node);
                assert(keys_sorted(self@)) by {
                    assert forall|i: int, j: int| 0 <= i < j < self@.len() implies key_lt(
                        #[trigger] self@[i].address@,
                        #[trigger] self@[j].address@,
                    ) by {
                        if j < p {
                            assert(self@[i] == before[i] && self@[j] == before[j]);
                        } else if j == p {
                            assert(self@[i] == before[i]);
                        } else if i == p {
                            assert(self@[j] == before[j - 1]);
                        } else if i < p {
                            assert(self@[i] == before[i] && self@[j] == before[j - 1]);
                        } else {
                            assert(self@[i] == before[i - 1] && self@[j] == before[j - 1]);
                        }
                    }
                }
            }
        }
    }

    /// Replaces the state and counters of the node at a position, keeping its address.
    pub fn update_at(&mut self, i: usize, state: State, last_attempt: usize, last_response: usize)
        requires
            old(self).wf(),
            i < old(self)@.len(),
        ensures
            final(self).wf(),
            final(self)@ == old(self)@.update(
                i as int,
                Node { state, last_attempt, last_response, ..old(self)@[i as int] },
            ),
    {
        let ghost before = self@;
        self.nodes[i].state = state;
        self.nodes[i].last_attempt = last_attempt;
        self.nodes[i].last_response = last_response;
        proof {
            assert(self@ =~= before.update(
                i as int,
                Node { state, last_attempt, last_response, ..before[i as int] },
            ));
            assert forall|a: int, b: int| 0 <= a < b < self@.len() implies key_lt(
                #[trigger] self@[a].address@,
                #[trigger] self@[b].address@,
            ) by {
                assert(key_lt(before[a].address@, before[b].address@));
            }
        }
    }

    /// The addresses, each followed by a semicolon, in the table's order.
    pub fn peer_list(&self) -> (text: String)
        ensures
            text@ == peer_list_text(self@),
    {
        let mut text = String::new();
        let mut i: usize = 0;
        while i < self.nodes.len()
            invariant
                i <= self@.len(),
                text@ == peer_list_text(self@.take(i as int)),
            decreases self@.len() - i,
        {
            proof {
                reveal_strlit(";");
            }
            text.append(self.nodes[i].address.as_str());
            text.append(";");
            proof {
                assert(self@.take(i + 1).drop_last() =~= self@.take(i as int));
                assert(text@ =~= peer_list_text(self@.take(i + 1)));
            }
            i = i + 1;
        }
        assert(self@.take(self@.len() as int) =~= self@);
        text
    }

    /// The addresses shown as a debug list, as `format!("{:?}", keys)` writes the keys of a
    /// `BTreeMap<String, _>`: each key as `Debug` writes a string, separated by a comma and a
    /// space, in brackets.
    pub fn debug_keys(&self) -> (text: String)
        ensures
            text@ == debug_key_list(self@),
    {
        let mut text = String::new();
        proof {
            reveal_strlit("[");
        }
        text.append("[");
        let mut i: usize = 0;
        while i < self.nodes.len()
            invariant
                i <= self@.len(),
                text@ == seq!['['] + debug_join(quoted_keys(self@).take(i as int)),
            decreases self@.len() - i,
        {
            let ghost before = text@;
            proof {
                reveal_strlit(", ");
            }
            if i > 0 {
                text.append(", ");
            }
            let ghost mid = text@;
            let key = debug_string(self.nodes[i].address.as_str());
            text.append(key.as_str());
            proof {
                let q = quoted_keys(self@);
                assert(q[i as int] == debug_text(self@[i as int].address@));
                assert(q.take(i + 1).drop_last() =~= q.take(i as int));
                if i > 0 {
                    assert(text@ =~= before + seq![',', ' '] + q[i as int]);
                } else {
                    assert(text@ =~= before + q[i as int]);
                }
                assert(q.take(i + 1).last() == q[i as int]);
            }
            i = i + 1;
        }
        proof {
            reveal_strlit("]");
        }
        text.append("]");
        assert(quoted_keys(self@).take(self@.len() as int) =~= quoted_keys(self@));
        text
    }
}

} // verus!
