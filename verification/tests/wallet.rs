use bitcoin::util::base58;
use minimum_viable_blockchain::chain::address::generate_keypair;
use minimum_viable_blockchain::chain::transaction::Amount;
use minimum_viable_blockchain::wallet::{
    is_whitespace_char, parse_block_number, prepare_transaction, slice_to_arr32, trim,
    WalletError,
};

fn amount(x: f64) -> Option<Amount> {
    Some(Amount { bits: x.to_bits(), json: serde_json::to_string(&x).unwrap() })
}

#[test]
fn slice_to_arr32_needs_exactly_32_bytes() {
    let v: Vec<u8> = (0..32).collect();
    assert_eq!(slice_to_arr32(&v).map(|a| a.to_vec()), Some(v.clone()));
    assert_eq!(slice_to_arr32(&v[..31]), None);
    assert_eq!(slice_to_arr32(&[0u8; 33]), None);
}

#[test]
fn block_numbers_parse_like_u64_from_str() {
    for text in ["0", "42", "+7", "", "+", "-1", "1a", "007", "18446744073709551615", "18446744073709551616", "99999999999999999999"].iter() {
        assert_eq!(parse_block_number(text), text.parse::<u64>().ok(), "text {:?}", text);
    }
}

#[test]
fn wallet_builds_a_verified_transaction() {
    let (secret, public) = generate_keypair(&[1; 32]);
    let (_, receiver) = generate_keypair(&[2; 32]);
    let pk = base58::encode_slice(&public);
    let sk = base58::encode_slice(&secret);
    let rk = base58::encode_slice(&receiver);
    let st = prepare_transaction(&pk, &sk, &rk, amount(1.1), "3").unwrap().unwrap();
    assert_eq!(st.transaction.sender, public);
    assert_eq!(st.transaction.receiver, receiver);
    assert_eq!(st.transaction.block, 3);
    assert!(st.verify_signature());
}

#[test]
fn wallet_reports_each_error() {
    let (secret, public) = generate_keypair(&[1; 32]);
    let pk = base58::encode_slice(&public);
    let sk = base58::encode_slice(&secret);
    assert_eq!(prepare_transaction("0OIl", &sk, &pk, amount(1.0), "1").unwrap_err(), WalletError::InvalidKeyText);
    assert_eq!(prepare_transaction(&pk, &sk, "abc", amount(1.0), "1").unwrap_err(), WalletError::WrongKeyLength);
    assert_eq!(prepare_transaction(&pk, &sk, &pk, None, "1").unwrap_err(), WalletError::InvalidAmount);
    assert_eq!(prepare_transaction(&pk, &sk, &pk, amount(1.0), "x").unwrap_err(), WalletError::InvalidBlock);
    assert_eq!(prepare_transaction(&pk, &pk, &pk, amount(1.0), "1").unwrap_err(), WalletError::ShortSecretKey);
}

#[test]
fn wallet_refuses_a_key_pair_that_does_not_match() {
    let (_, public) = generate_keypair(&[1; 32]);
    let (other_secret, _) = generate_keypair(&[2; 32]);
    let pk = base58::encode_slice(&public);
    let sk = base58::encode_slice(&other_secret);
    assert!(prepare_transaction(&pk, &sk, &pk, amount(1.0), "1").unwrap().is_none());
}

#[test]
fn trim_matches_str_trim() {
    for text in ["", "  ", "abc", "  abc", "abc\r\n", "\t a b \n", "\u{a0}x\u{3000}", "\u{200b}x", " \u{85}y\u{2028}"].iter() {
        assert_eq!(trim(text), text.trim(), "text {:?}", text);
    }
    for c in ['\u{0}', '\t', '\n', '\u{b}', '\u{c}', '\r', '\u{e}', ' ', 'a', '\u{85}', '\u{a0}', '\u{1680}', '\u{2000}', '\u{200a}', '\u{200b}', '\u{2028}', '\u{2029}', '\u{202f}', '\u{205f}', '\u{3000}', '\u{feff}'].iter() {
        assert_eq!(is_whitespace_char(*c), c.is_whitespace(), "char {:?}", c);
    }
}

#[test]
fn wallet_ignores_whitespace_around_its_inputs() {
    let (secret, public) = generate_keypair(&[1; 32]);
    let (_, receiver) = generate_keypair(&[2; 32]);
    let pk = base58::encode_slice(&public);
    let sk = base58::encode_slice(&secret);
    let rk = base58::encode_slice(&receiver);
    let plain = prepare_transaction(&pk, &sk, &rk, amount(1.1), "2").unwrap().unwrap();
    let padded = prepare_transaction(
        &format!("{}\n", pk),
        &format!("  {}\r\n", sk),
        &format!("\t{}", rk),
        amount(1.1),
        "  2  \n",
    )
    .unwrap()
    .unwrap();
    assert_eq!(padded.transaction.sender, plain.transaction.sender);
    assert_eq!(padded.transaction.receiver, plain.transaction.receiver);
    assert_eq!(padded.transaction.block, 2);
    assert_eq!(padded.signature, plain.signature);
    assert_eq!(
        prepare_transaction(&pk, &sk, &rk, amount(1.0), " x \n").unwrap_err(),
        WalletError::InvalidBlock
    );
}
