use minimum_viable_blockchain::chain::address::{
    contains_public, gen_seed, generate_keypair, generate_keypair_strings, new_keypair,
    same_public, Public,
};
use minimum_viable_blockchain::chain::block::Block;
use minimum_viable_blockchain::chain::blockchain::BlockChain;
use minimum_viable_blockchain::chain::header::Header;
use minimum_viable_blockchain::chain::transaction::{Amount, SignedTransaction, Transaction};
use minimum_viable_blockchain::hash::{
    hash_string, hash_struct, hash_vec, ToJson, DIFFICULTY, EMPTY_HASH,
};

fn amount(x: f64) -> Amount {
    Amount { bits: x.to_bits(), json: serde_json::to_string(&x).unwrap() }
}

fn bytes_json(b: &[u8]) -> String {
    serde_json::to_string(&b.to_vec()).unwrap()
}

fn keys(n: u8) -> ([u8; 64], Public) {
    generate_keypair(&[n; 32])
}

fn signed(secret: &[u8; 64], sender: Public, receiver: Public, x: f64, block: u64) -> SignedTransaction {
    let t = Transaction { sender, receiver, amount: amount(x), block };
    SignedTransaction::new(t, secret)
}

fn hex(h: &[u8]) -> String {
    h.iter().map(|b| format!("{:02x}", b)).collect()
}

#[test]
fn hash_string_is_sha256() {
    assert_eq!(
        hex(&hash_string("")),
        "e3b0c44298fc1c149afbf4c8996fb92427ae41e4649b934ca495991b7852b855"
    );
    assert_eq!(
        hex(&hash_string("abc")),
        "ba7816bf8f01cfea414140de5dae2223b00361a396177a9cb410ff61f20015ad"
    );
}

#[test]
fn constants_hold_their_values() {
    assert_eq!(EMPTY_HASH, [0u8; 32]);
    assert_eq!(DIFFICULTY, [0, 0]);
}

#[test]
fn transaction_json_matches_serde_layout() {
    let t = Transaction { sender: [1; 32], receiver: [2; 32], amount: amount(1.1), block: 7 };
    let expected = format!(
        "{{\"sender\":{},\"receiver\":{},\"amount\":1.1,\"block\":7}}",
        bytes_json(&[1; 32]),
        bytes_json(&[2; 32])
    );
    assert_eq!(t.to_json(), expected);
    assert_eq!(hash_struct(&t), hash_string(&expected));
}

#[test]
fn header_and_block_json() {
    let h = Header::genesis();
    let expected_header = format!(
        "{{\"index\":0,\"previous_hash\":{z},\"timestamp\":0,\"transactions_hash\":{z},\"nonce\":0,\"hash\":{z},\"difficulty\":[0,0],\"coinbase\":{z}}}",
        z = bytes_json(&[0; 32])
    );
    assert_eq!(h.to_json(), expected_header);
    let b = Block::genesis();
    assert_eq!(b.to_json(), format!("{{\"header\":{},\"transactions\":[]}}", expected_header));
    let mut neg = Header::genesis();
    neg.timestamp = -42;
    neg.index = u64::MAX;
    assert!(neg.to_json().contains("\"timestamp\":-42,"));
    assert!(neg.to_json().contains("\"index\":18446744073709551615,"));
    neg.timestamp = i64::MIN;
    assert!(neg.to_json().contains("\"timestamp\":-9223372036854775808,"));
}

#[test]
fn hash_vec_hashes_the_json_array() {
    let (secret, public) = keys(1);
    let a = signed(&secret, public, [9; 32], 2.5, 0);
    let b = signed(&secret, public, [8; 32], 0.25, 1);
    let list = vec![a.clone(), b.clone()];
    let text = format!("[{},{}]", a.to_json(), b.to_json());
    assert_eq!(hash_vec(&list), hash_string(&text));
    let empty: Vec<SignedTransaction> = vec![];
    assert_eq!(hash_vec(&empty), hash_string("[]"));
    assert!(a.to_json().starts_with("{\"transaction\":{\"sender\":"));
    assert!(a.to_json().contains(",\"signature\":["));
}

#[test]
fn amounts_compare_as_doubles() {
    assert!(amount(1.5).equals(&amount(1.5)));
    assert!(!amount(1.5).equals(&amount(2.5)));
    assert!(amount(0.0).equals(&amount(-0.0)));
    assert!(!amount(f64::NAN).equals(&amount(f64::NAN)));
    assert!(amount(f64::INFINITY).equals(&amount(f64::INFINITY)));
}

#[test]
fn keypair_is_seed_then_public() {
    let seed = [7u8; 32];
    let (secret, public) = generate_keypair(&seed);
    assert_eq!(&secret[..32], &seed[..]);
    assert_eq!(&secret[32..], &public[..]);
    assert_eq!(generate_keypair(&seed), (secret, public));
    assert_ne!(public, seed);
    let (a, b) = generate_keypair_strings(&seed);
    assert_eq!(bitcoin::util::base58::from(&a).unwrap(), secret.to_vec());
    assert_eq!(bitcoin::util::base58::from(&b).unwrap(), public.to_vec());
    let (s2, p2) = new_keypair();
    assert_eq!(&s2[32..], &p2[..]);
    let _ = gen_seed();
}

#[test]
fn public_key_helpers() {
    assert!(same_public(&[3; 32], &[3; 32]));
    assert!(!same_public(&[3; 32], &[4; 32]));
    let list = vec![[1u8; 32], [2u8; 32]];
    assert!(contains_public(&list, &[2; 32]));
    assert!(!contains_public(&list, &[5; 32]));
}

#[test]
fn signatures_verify_and_detect_tampering() {
    let (secret, public) = keys(1);
    let st = signed(&secret, public, [2; 32], 1.1, 0);
    assert_eq!(st.signature.len(), 64);
    assert!(st.verify_signature());
    let mut forged = st.clone();
    forged.transaction.amount = amount(100.0);
    assert!(!forged.verify_signature());
    let solvent = vec![public];
    assert!(st.verify(&solvent));
    assert!(st.verify_balance(&solvent));
    assert!(!st.verify(&vec![]));
    assert!(!st.verify_balance(&vec![]));
    let (other_secret, _) = keys(2);
    let wrong = signed(&other_secret, public, [2; 32], 1.1, 0);
    assert!(!wrong.verify_signature());
}

#[test]
fn transaction_equality_and_copies() {
    let (secret, public) = keys(1);
    let st = signed(&secret, public, [2; 32], 1.1, 0);
    assert!(st.equals(&st.copy()));
    assert!(st.transaction.equals(&st.transaction.copy()));
    let nan = signed(&secret, public, [2; 32], f64::NAN, 0);
    assert!(!nan.equals(&nan.copy()));
}

#[test]
fn block_accepts_valid_new_transactions_only() {
    let (secret, public) = keys(1);
    let solvent = vec![public];
    let genesis = Block::genesis();
    let mut block = Block::new(&genesis, public);
    assert_eq!(block.header.index, 1);
    assert_eq!(block.header.coinbase, public);
    assert_eq!(block.header.previous_hash, EMPTY_HASH);
    let st = signed(&secret, public, [2; 32], 1.1, 0);
    let before = block.header.clone();
    assert!(block.add_transaction(st.clone(), &solvent));
    assert_eq!(block.transactions.len(), 1);
    assert_eq!(block.header.transactions_hash, hash_vec(&block.transactions));
    assert_eq!(block.header.index, before.index);
    assert_eq!(block.header.nonce, before.nonce);
    // the same transaction again is refused
    assert!(!block.add_transaction(st.clone(), &solvent));
    assert!(block.contains(&st));
    // a sender outside the solvent list is refused
    let (secret2, public2) = keys(2);
    let poor = signed(&secret2, public2, [2; 32], 1.0, 0);
    assert!(!block.add_transaction(poor.clone(), &solvent));
    // a bad signature is refused
    let mut forged = signed(&secret, public, [2; 32], 5.0, 0);
    forged.transaction.block = 9;
    assert!(!block.add_transaction(forged, &solvent));
    assert_eq!(block.transactions.len(), 1);
    assert!(block.verify(&solvent));
    assert!(!block.verify(&vec![]));
}

#[test]
fn nan_amount_transaction_can_be_added_twice() {
    let (secret, public) = keys(1);
    let solvent = vec![public];
    let mut block = Block::new(&Block::genesis(), public);
    let st = signed(&secret, public, [2; 32], f64::NAN, 0);
    assert!(block.add_transaction(st.clone(), &solvent));
    assert!(block.add_transaction(st.clone(), &solvent));
    assert_eq!(block.transactions.len(), 2);
}

#[test]
fn filter_keeps_valid_transactions_in_order() {
    let (s1, p1) = keys(1);
    let (s2, p2) = keys(2);
    let mut block = Block::new(&Block::genesis(), p1);
    let a = signed(&s1, p1, [2; 32], 1.0, 0);
    let b = signed(&s2, p2, [2; 32], 2.0, 0);
    let c = signed(&s1, p1, [3; 32], 3.0, 0);
    block.transactions = vec![a.clone(), b.clone(), c.clone()];
    let header = block.header.clone();
    block.filter_transactions(&vec![p1]);
    assert_eq!(block.transactions.len(), 2);
    assert!(block.transactions[0].equals(&a));
    assert!(block.transactions[1].equals(&c));
    assert_eq!(block.header, header);
    block.filter_transactions(&vec![p1]);
    assert_eq!(block.transactions.len(), 2);
    assert!(block.verify(&vec![p1]));
}

#[test]
fn proof_of_work_meets_difficulty_when_found() {
    let mut block = Block::new(&Block::genesis(), [1; 32]);
    let mut found = None;
    for nonce in 0..400_000u64 {
        if block.prove_work_with_nonce(nonce) {
            found = Some(nonce);
            break;
        }
        assert!(hash_struct(&block)[..2] != DIFFICULTY);
    }
    let nonce = found.expect("a nonce below 400000 meets the difficulty");
    assert_eq!(block.header.nonce, nonce);
    let digest = hash_struct(&block);
    assert_eq!(&digest[..2], &DIFFICULTY[..]);
    let found_again = block.prove_work();
    assert_eq!(found_again, hash_struct(&block)[..2] == DIFFICULTY);
}

#[test]
fn new_chain_starts_at_genesis() {
    let chain = BlockChain::new([5; 32]);
    assert_eq!(chain.prev_blocks.len(), 1);
    assert_eq!(chain.prev_blocks[0].header, Header::genesis());
    assert_eq!(chain.current_block.header.index, 1);
    assert_eq!(chain.current_block.header.coinbase, [5; 32]);
    assert!(chain.current_block.transactions.is_empty());
    assert!(chain.verify(&vec![]));
}

#[test]
fn sealing_current_block_extends_chain() {
    let mut chain = BlockChain::new([5; 32]);
    chain.add_current_block([6; 32]);
    assert_eq!(chain.prev_blocks.len(), 2);
    assert_eq!(chain.prev_blocks[1].header.index, 1);
    assert_eq!(chain.current_block.header.index, 2);
    assert_eq!(chain.current_block.header.coinbase, [6; 32]);
    assert_eq!(chain.current_block.header.previous_hash, chain.prev_blocks[1].header.hash);
    for (i, b) in chain.prev_blocks.iter().enumerate() {
        assert_eq!(b.header.index, i as u64);
    }
}

#[test]
fn received_block_is_sealed_only_when_valid() {
    let (secret, public) = keys(1);
    let mut chain = BlockChain::new(public);
    let mut block = Block::new(&chain.prev_blocks[0], [9; 32]);
    block.transactions.push(signed(&secret, public, [2; 32], 1.0, 0));
    assert!(!chain.receive_new_block(block.clone(), public, &vec![]));
    assert_eq!(chain.prev_blocks.len(), 1);
    assert!(chain.receive_new_block(block.clone(), public, &vec![public]));
    assert_eq!(chain.prev_blocks.len(), 2);
    assert_eq!(chain.current_block.header.index, block.header.index + 1);
    assert!(chain.verify(&vec![public]));
    assert!(!chain.verify(&vec![]));
}

#[test]
fn chain_add_transaction_targets_current_block() {
    let (secret, public) = keys(1);
    let mut chain = BlockChain::new(public);
    let st = signed(&secret, public, [2; 32], 1.0, 0);
    assert!(chain.add_transaction(st.clone(), &vec![public]));
    assert!(!chain.add_transaction(st, &vec![public]));
    assert_eq!(chain.current_block.transactions.len(), 1);
    assert_eq!(chain.prev_blocks.len(), 1);
    let _ = chain.prove_work();
    assert_eq!(chain.current_block.transactions.len(), 1);
}

#[test]
fn balance_inputs_are_extracted_per_block() {
    let (s1, p1) = keys(1);
    let (s2, p2) = keys(2);
    let mut chain = BlockChain::new(p1);
    let mut block = Block::new(&chain.prev_blocks[0], p1);
    block.transactions.push(signed(&s1, p1, p2, 1.5, 0));
    block.transactions.push(signed(&s2, p2, p1, 0.5, 0));
    block.transactions.push(signed(&s1, p1, p2, 2.0, 0));
    assert!(chain.receive_new_block(block, p2, &vec![p1, p2]));
    let sent = chain.amounts_sent_by(&p1);
    assert_eq!(sent, vec![vec![], vec![1.5f64.to_bits(), 2.0f64.to_bits()]]);
    let received = chain.amounts_received_by(&p1);
    assert_eq!(received, vec![vec![], vec![0.5f64.to_bits()]]);
    assert_eq!(chain.coinbase_count(&p1), 1);
    assert_eq!(chain.coinbase_count(&[0; 32]), 1);
    assert_eq!(chain.coinbase_count(&p2), 0);
}

#[test]
fn header_new_at_stamps_the_given_time() {
    let p = Header {
        index: 4,
        previous_hash: [1; 32],
        timestamp: 10,
        transactions_hash: [2; 32],
        nonce: 99,
        hash: [3; 32],
        difficulty: [0; 2],
        coinbase: [4; 32],
    };
    let r = Header::new_at(&p, [7; 32], 1000);
    assert_eq!(r.index, 5);
    assert_eq!(r.previous_hash, [3; 32]);
    assert_eq!(r.timestamp, 1000);
    assert_eq!(r.transactions_hash, EMPTY_HASH);
    assert_eq!(r.nonce, 0);
    assert_eq!(r.hash, EMPTY_HASH);
    assert_eq!(r.difficulty, DIFFICULTY);
    assert_eq!(r.coinbase, [7; 32]);
    assert_eq!(p.index, 4);
}

#[test]
fn stamped_blocks_and_chains_carry_the_given_time() {
    let (secret, public) = keys(1);
    let b = Block::new_at(&Block::genesis(), [9; 32], 77);
    assert_eq!(b.header.timestamp, 77);
    assert_eq!(b.header.index, 1);
    assert!(b.transactions.is_empty());

    let mut chain = BlockChain::new_at(public, 100);
    assert_eq!(chain.current_block.header.timestamp, 100);
    let st = signed(&secret, public, [2; 32], 1.0, 0);
    assert!(chain.add_transaction_at(st.clone(), &vec![public], 200));
    assert_eq!(chain.current_block.header.timestamp, 200);
    assert_eq!(chain.current_block.header.transactions_hash, hash_vec(&chain.current_block.transactions));
    assert!(!chain.add_transaction_at(st, &vec![public], 300));
    assert_eq!(chain.current_block.header.timestamp, 200);

    chain.add_current_block_at([6; 32], 400);
    assert_eq!(chain.current_block.header.timestamp, 400);
    assert_eq!(chain.prev_blocks[1].header.timestamp, 200);

    let incoming = Block::new_at(&chain.prev_blocks[1], [8; 32], 450);
    assert!(chain.receive_new_block_at(incoming, public, &vec![public], 500));
    assert_eq!(chain.current_block.header.timestamp, 500);
    assert_eq!(chain.current_block.header.coinbase, public);

    let mut block = Block::new_at(&Block::genesis(), [9; 32], 1);
    block.update_header_at(600);
    assert_eq!(block.header.timestamp, 600);
}

#[test]
fn sealed_blocks_link_by_hash() {
    let mut chain = BlockChain::new_at([5; 32], 1);
    for t in 2..6 {
        chain.add_current_block_at([6; 32], t);
    }
    for i in 1..chain.prev_blocks.len() {
        assert_eq!(chain.prev_blocks[i].header.previous_hash, chain.prev_blocks[i - 1].header.hash);
    }
    assert_eq!(
        chain.current_block.header.previous_hash,
        chain.prev_blocks[chain.prev_blocks.len() - 1].header.hash
    );
}
