use std::collections::BTreeMap;

use minimum_viable_blockchain::chain::address::{generate_keypair, Public};
use minimum_viable_blockchain::chain::block::Block;
use minimum_viable_blockchain::chain::transaction::{Amount, SignedTransaction, Transaction};
use minimum_viable_blockchain::consensus::config::Config;
use minimum_viable_blockchain::consensus::gossip::GossipClient;
use minimum_viable_blockchain::consensus::message::{Action, Message};
use minimum_viable_blockchain::consensus::miner::{split_peers, Miner};
use minimum_viable_blockchain::consensus::node::{compare_keys, KeyOrder, NodeTable, State};
use minimum_viable_blockchain::consensus::peers::Peers;
use minimum_viable_blockchain::hash::{hash_struct, DIFFICULTY};

fn config(address: &str, wallet: Public) -> Config {
    Config {
        address: address.to_string(),
        wallet,
        timeout_ms: 5000,
        detection_period_ms: 3000,
        detection_group_size: 2,
    }
}

fn amount(x: f64) -> Amount {
    Amount { bits: x.to_bits(), json: serde_json::to_string(&x).unwrap() }
}

fn signed(seed: u8, receiver: Public, x: f64) -> (SignedTransaction, Public) {
    let (secret, public) = generate_keypair(&[seed; 32]);
    let t = Transaction { sender: public, receiver, amount: amount(x), block: 0 };
    (SignedTransaction::new(t, &secret), public)
}

fn addresses(table: &NodeTable) -> Vec<String> {
    (0..table.len()).map(|i| table.get(i).address.clone()).collect()
}

#[test]
fn keys_compare_like_strings() {
    let pairs = [("a", "b"), ("b", "a"), ("ab", "a"), ("a", "ab"), ("", ""), ("x", "x"), ("10", "9")];
    for (a, b) in pairs.iter() {
        let expected = match a.cmp(b) {
            std::cmp::Ordering::Less => KeyOrder::Less,
            std::cmp::Ordering::Equal => KeyOrder::Equal,
            std::cmp::Ordering::Greater => KeyOrder::Greater,
        };
        assert_eq!(compare_keys(a, b), expected);
    }
}

#[test]
fn table_orders_nodes_like_a_btreemap() {
    let mut table = NodeTable::new();
    let list = ["127.0.0.1:3002", "127.0.0.1:3000", "10.0.0.1:80", "127.0.0.1:3001"];
    let mut map = BTreeMap::new();
    for a in list.iter() {
        table.add_node(a.to_string());
        map.insert(a.to_string(), ());
    }
    assert_eq!(addresses(&table), map.keys().cloned().collect::<Vec<_>>());
    assert_eq!(table.peer_list(), "10.0.0.1:80;127.0.0.1:3000;127.0.0.1:3001;127.0.0.1:3002;");
    assert_eq!(table.debug_keys(), format!("{:?}", map.keys()));
    assert_eq!(table.find("127.0.0.1:3001"), Some(2));
    assert_eq!(table.find("127.0.0.1:9999"), None);
}

#[test]
fn debug_keys_escapes_like_debug() {
    let mut table = NodeTable::new();
    let mut map = BTreeMap::new();
    for a in ["a\"b", "c\\d", "plain"].iter() {
        table.add_node(a.to_string());
        map.insert(a.to_string(), ());
    }
    assert_eq!(table.debug_keys(), format!("{:?}", map.keys()));
    assert_eq!(NodeTable::new().debug_keys(), "[]");
}

#[test]
fn join_twice_is_join_once() {
    let mut table = NodeTable::new();
    table.add_node("127.0.0.1:3000".to_string());
    table.update_at(0, State::Questionable, 4, 2);
    table.add_node("127.0.0.1:3000".to_string());
    assert_eq!(table.len(), 1);
    let n = table.get(0);
    assert_eq!(n.state, State::Alive);
    assert_eq!((n.last_attempt, n.last_response), (4, 2));
    table.add_node("127.0.0.1:3000".to_string());
    assert_eq!(table.len(), 1);
}

#[test]
fn state_names_and_node_description() {
    assert_eq!(State::Alive.name(), "alive");
    assert_eq!(State::Questionable.name(), "questionable");
    assert_eq!(State::Dead.name(), "dead");
    let mut table = NodeTable::new();
    table.add_node("127.0.0.1:3000".to_string());
    assert_eq!(table.get(0).describe(), "127.0.0.1:3000 alive");
}

#[test]
fn split_peers_cuts_like_str_split() {
    for text in ["a;b;", "", ";", "a", "a;;b", "127.0.0.1:3000;"].iter() {
        let expected: Vec<String> = text.split(";").map(|s| s.to_string()).collect();
        assert_eq!(split_peers(text), expected);
    }
}

#[test]
fn gossip_client_configuration() {
    let c = GossipClient::config(3001, [4; 32]);
    assert_eq!(c.address, "127.0.0.1:3001");
    assert_eq!(c.wallet, [4; 32]);
    assert_eq!((c.timeout_ms, c.detection_period_ms, c.detection_group_size), (5000, 3000, 2));
    assert_eq!(GossipClient::default_node(), "127.0.0.1:3000");
    assert_eq!(GossipClient::local_address(0), "127.0.0.1:0");
    assert_eq!(GossipClient::local_address(65535), "127.0.0.1:65535");
}

#[test]
fn miner_answers_ping_join_and_ack() {
    let mut miner = Miner::with_config(config("127.0.0.1:3000", [1; 32]));
    let actions = miner.handle_message(Message::Ping { from: "127.0.0.1:3005".to_string() }, &vec![]);
    assert_eq!(actions.len(), 1);
    match &actions[0] {
        Action::Send { to, message: Message::Ack { from } } => {
            assert_eq!(to, "127.0.0.1:3005");
            assert_eq!(from, "127.0.0.1:3000");
        },
        _ => panic!("expected an acknowledgement"),
    }
    assert!(miner.handle_message(Message::Join { from: "127.0.0.1:3005".to_string() }, &vec![]).is_empty());
    assert_eq!(miner.nodes().len(), 1);
    miner.filter_nodes().unwrap();
    assert_eq!(miner.nodes().get(0).last_attempt, 1);
    assert!(miner.handle_message(Message::Ack { from: "127.0.0.1:3005".to_string() }, &vec![]).is_empty());
    assert_eq!(miner.nodes().get(0).state, State::Alive);
    assert_eq!(miner.nodes().get(0).last_response, 0);
    assert!(miner.handle_message(Message::GetBlockChain { from: "x".to_string() }, &vec![]).is_empty());
}

#[test]
fn miner_filter_marks_questionable_never_dead() {
    let mut miner = Miner::with_config(config("127.0.0.1:3000", [1; 32]));
    miner.add_node("127.0.0.1:3001".to_string()).unwrap();
    for round in 0..20usize {
        miner.filter_nodes().unwrap();
        let n = miner.nodes().get(0);
        assert_eq!(n.last_attempt, round + 1);
        if round > 5 {
            assert_eq!(n.state, State::Questionable);
        } else {
            assert_eq!(n.state, State::Alive);
        }
    }
}

#[test]
fn miner_peer_list_exchange() {
    let mut miner = Miner::with_config(config("127.0.0.1:3000", [1; 32]));
    miner.add_node("127.0.0.1:3002".to_string()).unwrap();
    miner.add_node("127.0.0.1:3001".to_string()).unwrap();
    match miner.send_peers("127.0.0.1:3009".to_string()) {
        Action::Send { to, message: Message::SendPeers { peers, from } } => {
            assert_eq!(to, "127.0.0.1:3009");
            assert_eq!(peers, "127.0.0.1:3001;127.0.0.1:3002;");
            assert_eq!(from, "127.0.0.1:3000");
        },
        _ => panic!("expected a peer list"),
    }
    let actions = miner.handle_message(
        Message::SendPeers { peers: "127.0.0.1:4000;127.0.0.1:4001;".to_string(), from: "127.0.0.1:3001".to_string() },
        &vec![],
    );
    assert_eq!(actions.len(), 2);
    match &actions[1] {
        Action::AddPeers { candidates } => {
            assert_eq!(candidates, &vec!["127.0.0.1:4000".to_string(), "127.0.0.1:4001".to_string(), String::new()]);
        },
        _ => panic!("expected candidates"),
    }
}

#[test]
fn miner_broadcast_skips_itself_and_dead_nodes() {
    let mut miner = Miner::with_config(config("127.0.0.1:3000", [1; 32]));
    miner.add_node("127.0.0.1:3000".to_string()).unwrap();
    miner.add_node("127.0.0.1:3001".to_string()).unwrap();
    match miner.send_all(Message::Ping { from: "127.0.0.1:3000".to_string() }) {
        Action::Broadcast { targets, .. } => assert_eq!(targets, vec!["127.0.0.1:3001".to_string()]),
        _ => panic!("expected a broadcast"),
    }
    match miner.join("127.0.0.1:3000".to_string()) {
        Action::Send { to, message: Message::Join { from } } => {
            assert_eq!(to, "127.0.0.1:3000");
            assert_eq!(from, "127.0.0.1:3000");
        },
        _ => panic!("expected a join"),
    }
}

#[test]
fn ping_round_picks_last_node_with_most_attempts() {
    let mut miner = Miner::with_config(config("127.0.0.1:3000", [1; 32]));
    assert!(miner.schedule_ping().is_none());
    miner.add_node("127.0.0.1:3001".to_string()).unwrap();
    miner.add_node("127.0.0.1:3002".to_string()).unwrap();
    let (node, action) = miner.schedule_ping().unwrap();
    // both have one attempt after detection; the later one is picked
    assert_eq!(node.address, "127.0.0.1:3002");
    assert_eq!((node.last_attempt, node.last_response), (0, 1));
    match action {
        Action::Send { to, message: Message::SendPeers { peers, .. } } => {
            assert_eq!(to, "127.0.0.1:3002");
            assert_eq!(peers, "127.0.0.1:3001;127.0.0.1:3002;");
        },
        _ => panic!("an alive node gets the peer list"),
    }
    let (node, _) = miner.schedule_ping().unwrap();
    assert_eq!(node.address, "127.0.0.1:3001");
    for _ in 0..8 {
        miner.filter_nodes().unwrap();
    }
    let (node, action) = miner.schedule_ping().unwrap();
    assert_eq!(node.state, State::Questionable);
    match action {
        Action::Send { message: Message::Ping { from }, .. } => assert_eq!(from, "127.0.0.1:3000"),
        _ => panic!("a questionable node gets a ping"),
    }
}

#[test]
fn miner_takes_and_forwards_new_transactions() {
    let mut miner = Miner::with_config(config("127.0.0.1:3000", [1; 32]));
    miner.add_node("127.0.0.1:3001".to_string()).unwrap();
    let (st, sender) = signed(3, [9; 32], 1.25);
    let msg = || Message::Transaction { transaction: st.clone(), from: "127.0.0.1:3001".to_string() };
    assert!(miner.handle_message(msg(), &vec![]).is_empty());
    let actions = miner.handle_message(msg(), &vec![sender]);
    assert_eq!(actions.len(), 1);
    match &actions[0] {
        Action::Broadcast { targets, message: Message::Transaction { transaction, from } } => {
            assert_eq!(targets, &vec!["127.0.0.1:3001".to_string()]);
            assert!(transaction.equals(&st));
            assert_eq!(from, "127.0.0.1:3001");
        },
        _ => panic!("expected a broadcast of the transaction"),
    }
    assert_eq!(miner.blockchain().current_block.transactions.len(), 1);
    assert!(miner.handle_message(msg(), &vec![sender]).is_empty());
}

#[test]
fn miner_seals_valid_blocks_with_the_current_index() {
    let mut miner = Miner::with_config(config("127.0.0.1:3000", [1; 32]));
    let (st, sender) = signed(3, [9; 32], 1.25);
    let mut block = Block::new(&miner.blockchain().prev_blocks[0], [7; 32]);
    block.transactions.push(st);
    let mut stale = block.clone();
    stale.header.index = 5;
    assert!(miner.handle_message(Message::NewBlock { block: stale, from: "p".to_string() }, &vec![sender]).is_empty());
    assert!(miner.handle_message(Message::NewBlock { block: block.clone(), from: "p".to_string() }, &vec![]).is_empty());
    assert_eq!(miner.blockchain().prev_blocks.len(), 1);
    let actions = miner.handle_message(Message::NewBlock { block, from: "p".to_string() }, &vec![sender]);
    assert_eq!(actions.len(), 1);
    assert_eq!(miner.blockchain().prev_blocks.len(), 2);
    assert_eq!(miner.blockchain().current_block.header.index, 2);
    assert_eq!(miner.blockchain().current_block.header.coinbase, [1; 32]);
}

#[test]
fn mining_seals_the_block_when_the_nonce_works() {
    let mut miner = Miner::with_config(config("127.0.0.1:3000", [1; 32]));
    miner.add_node("127.0.0.1:3001".to_string()).unwrap();
    let mut probe = miner.blockchain().current_block.clone();
    let mut good = None;
    for nonce in 0..400_000u64 {
        if probe.prove_work_with_nonce(nonce) {
            good = Some(nonce);
            break;
        }
    }
    let good = good.expect("a nonce meets the difficulty");
    let out = miner.mine_at(good, 1_600_000_000);
    let action = out.expect("the block is found");
    match action {
        Action::Broadcast { targets, message: Message::NewBlock { block, from } } => {
            assert_eq!(targets, vec!["127.0.0.1:3001".to_string()]);
            assert_eq!(from, "127.0.0.1:3000");
            assert_eq!(block.header.nonce, good);
            assert_eq!(&hash_struct(&block)[..2], &DIFFICULTY[..]);
        },
        _ => panic!("expected a broadcast of the block"),
    }
    assert_eq!(miner.blockchain().prev_blocks.len(), 2);
    assert_eq!(miner.blockchain().current_block.header.index, 2);
    assert_eq!(miner.blockchain().current_block.header.timestamp, 1_600_000_000);
    let _ = miner.mine();
}

#[test]
fn gossip_node_tracks_silence() {
    let mut peers = Peers::with_config(config("127.0.0.1:3000", [1; 32]));
    assert!(peers.schedule_ping().is_none());
    let actions = peers.handle_message(Message::Join { from: "127.0.0.1:3001".to_string() });
    assert!(actions.is_empty());
    for _ in 0..6 {
        peers.tick();
    }
    assert_eq!(peers.nodes().get(0).state, State::Questionable);
    for _ in 0..30 {
        peers.tick();
    }
    assert_eq!(peers.nodes().get(0).state, State::Questionable);
    peers.reset_count("127.0.0.1:3001").unwrap();
    assert_eq!(peers.nodes().get(0).state, State::Alive);
    assert_eq!(peers.nodes().get(0).last_attempt, 0);
    match peers.schedule_ping() {
        Some(Action::Send { to, message: Message::SendPeers { peers: p, .. } }) => {
            assert_eq!(to, "127.0.0.1:3001");
            assert_eq!(p, "[\"127.0.0.1:3001\"]");
        },
        _ => panic!("the only peer gets the list"),
    }
    peers.add_node("127.0.0.1:3002".to_string()).unwrap();
    assert!(peers.ping_target(3).is_some());
    let acks = peers.handle_message(Message::Ping { from: "127.0.0.1:3002".to_string() });
    assert_eq!(acks.len(), 1);
    let cands = peers.handle_message(Message::SendPeers { peers: "a;b".to_string(), from: "x".to_string() });
    match &cands[0] {
        Action::AddPeers { candidates } => assert_eq!(candidates, &vec!["a".to_string(), "b".to_string()]),
        _ => panic!("expected candidates"),
    }
}

#[test]
fn peer_list_reads_back_into_its_addresses() {
    let mut table = NodeTable::new();
    for a in ["127.0.0.1:3002", "127.0.0.1:3000", "[::1]:80"].iter() {
        table.add_node(a.to_string());
    }
    let mut expected = addresses(&table);
    expected.push(String::new());
    assert_eq!(split_peers(&table.peer_list()), expected);
    assert_eq!(split_peers(&NodeTable::new().peer_list()), vec![String::new()]);
}

#[test]
fn short_signatures_are_met_only_before_an_invalid_transaction() {
    let (st, sender) = signed(3, [9; 32], 1.0);
    let mut short = st.clone();
    short.signature.truncate(10);
    let miner = Miner::with_config(config("127.0.0.1:3000", [1; 32]));
    let mut block = Block::new(&miner.blockchain().prev_blocks[0], [1; 32]);
    block.transactions = vec![st.clone(), short.clone()];
    assert!(block.meets_short_signature(&vec![sender]));
    assert!(!block.meets_short_signature(&vec![]));
    assert!(!block.verify(&vec![]));
    let tx_msg = Message::Transaction { transaction: short.clone(), from: "p".to_string() };
    assert!(!miner.can_check(&tx_msg, &vec![sender]));
    let ok_msg = Message::Transaction { transaction: st, from: "p".to_string() };
    assert!(miner.can_check(&ok_msg, &vec![sender]));
    let block_msg = Message::NewBlock { block: block.clone(), from: "p".to_string() };
    assert!(!miner.can_check(&block_msg, &vec![sender]));
    assert!(miner.can_check(&block_msg, &vec![]));
    let mut stale = block;
    stale.header.index = 7;
    assert!(miner.can_check(&Message::NewBlock { block: stale, from: "p".to_string() }, &vec![sender]));
}

#[test]
fn received_peer_list_makes_every_sender_peer_alive() {
    let mut sender = Miner::with_config(config("127.0.0.1:3000", [1; 32]));
    for a in ["127.0.0.1:3003", "127.0.0.1:3001", "127.0.0.1:3002"].iter() {
        sender.add_node(a.to_string()).unwrap();
    }
    let peers = match sender.send_peers("127.0.0.1:3009".to_string()) {
        Action::Send { message: Message::SendPeers { peers, .. }, .. } => peers,
        _ => panic!("expected a peer list"),
    };
    let mut receiver = Miner::with_config(config("127.0.0.1:3009", [2; 32]));
    receiver.add_node("127.0.0.1:3001".to_string()).unwrap();
    let actions = receiver.handle_message(
        Message::SendPeers { peers, from: "127.0.0.1:3000".to_string() },
        &vec![],
    );
    let candidates = match &actions[1] {
        Action::AddPeers { candidates } => candidates.clone(),
        _ => panic!("expected candidates"),
    };
    for c in candidates.iter().filter(|c| !c.is_empty()) {
        receiver.add_node(c.clone()).unwrap();
    }
    for i in 0..sender.nodes().len() {
        let address = &sender.nodes().get(i).address;
        let k = receiver.nodes().find(address).expect("the peer is known");
        assert_eq!(receiver.nodes().get(k).state, State::Alive);
    }
}

#[test]
fn states_debug_as_their_words() {
    assert_eq!(format!("{:?}", State::Alive), "alive");
    assert_eq!(format!("{:?}", State::Questionable), "questionable");
    assert_eq!(format!("{:?}", State::Dead), "dead");
    assert_eq!(State::Dead.name(), "dead");
}
