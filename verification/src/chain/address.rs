use bitcoin::util::base58;
use crypto::ed25519::keypair;
use rand::Rng;
use vstd::prelude::*;

verus! {

/// A public key, which is also an account's address.
pub type Public = crate::hash::Hash;

/// A secret key: the 32-byte seed followed by the 32-byte public key.
pub type Private = [u8; 64];

/// The Ed25519 key pair (secret key, public key) derived from a seed.
pub uninterp spec fn ed25519_keypair(seed: Seq<u8>) -> (Seq<u8>, Seq<u8>);

/// The base58 text of a byte sequence.
pub uninterp spec fn base58_text(data: Seq<u8>) -> Seq<char>;

/// The bytes that a valid base58 text stands for.
pub uninterp spec fn base58_bytes(text: Seq<char>) -> Seq<u8>;

/// A character of the base58 alphabet `1-9`, `A-Z` without `I` and `O`, `a-z` without `l`.
pub open spec fn is_base58_char(c: char) -> bool {
    ||| ('1' <= c && c <= '9')
    ||| ('A' <= c && c <= 'Z' && c != 'I' && c != 'O')
    ||| ('a' <= c && c <= 'z' && c != 'l')
}

/// Draws a random seed from `rand::thread_rng()`. Nothing is claimed of the value.
#[verifier::external_body]
pub fn gen_seed() -> (seed: Public) {
    let mut rng = rand::thread_rng();
    let seed: Public = rng.gen();
    seed
}

/// Calls `crypto::ed25519::keypair` of rust-crypto. The contract claims that the pair is the
/// value of `ed25519_keypair` on the seed, and, as that function's source shows, that the
/// secret key is the seed followed by the public key.
#[verifier::external_body]
pub fn generate_keypair(seed: &Public) -> (pair: (Private, Public))
    ensures
        (pair.0@, pair.1@) == ed25519_keypair(seed@),
        pair.0@.subrange(0, 32) == seed@,
        pair.0@.subrange(32, 64) == pair.1@,
{
    keypair(seed)
}

/// Calls `bitcoin::util::base58::encode_slice`. The contract claims that the text is the value
/// of `base58_text` on the bytes.
#[verifier::external_body]
fn encode_base58(data: &[u8]) -> (text: String)
    ensures
        text@ == base58_text(data@),
{
    base58::encode_slice(data)
}

/// Calls `bitcoin::util::base58::from`. The contract claims that it fails exactly when some
/// character is outside the base58 alphabet (its source rejects every other byte, and accepts
/// every text of alphabet characters), and that the bytes it returns are the value of
/// `base58_bytes` on the text.
#[verifier::external_body]
pub(crate) fn decode_base58(text: &str) -> (bytes: Option<Vec<u8>>)
    ensures
        bytes is Some <==> (forall|i: int| 0 <= i < text@.len() ==> is_base58_char(#[trigger] text@[i])),
        bytes matches Some(b) ==> b@ == base58_bytes(text@),
{
    match base58::from(text) {
        Ok(b) => Some(b),
        Err(_) => None,
    }
}

/// The base58 texts of the two halves of the key pair derived from `seed`, the 64-byte secret
/// key first.
pub fn generate_keypair_strings(seed: &Public) -> (texts: (String, String))
    ensures
        texts.0@ == base58_text(ed25519_keypair(seed@).0),
        texts.1@ == base58_text(ed25519_keypair(seed@).1),
{
    let (first, second) = generate_keypair(seed);
    (encode_base58(first.as_slice()), encode_base58(second.as_slice()))
}

/// A fresh key pair from a random seed.
pub fn new_keypair() -> (pair: (Private, Public))
    ensures
        exists|seed: Seq<u8>|
            seed.len() == 32 && (pair.0@, pair.1@) == #[trigger] ed25519_keypair(seed)
                && pair.0@.subrange(0, 32) == seed,
        pair.0@.subrange(32, 64) == pair.1@,
{
    let seed = gen_seed();
    generate_keypair(&seed)
}

} // verus!

verus! {

/// Whether two keys hold the same bytes.
pub fn same_public(a: &Public, b: &Public) -> (same: bool)
    ensures
        same == (*a == *b),
{
    let mut i: usize = 0;
    while i < 32
        invariant
            i <= 32,
            forall|j: int| 0 <= j < i ==> a[j] == b[j],
        decreases 32 - i,
    {
        if a[i] != b[i] {
            assert(!(a@ =~= b@));
            return false;
        }
        i = i + 1;
    }
    assert(a@ =~= b@);
    assert(*a =~= *b);
    true
}

/// Whether a key occurs in a list.
pub fn contains_public(list: &Vec<Public>, key: &Public) -> (found: bool)
    ensures
        found == list@.contains(*key),
{
    let mut i: usize = 0;
    while i < list.len()
        invariant
            i <= list@.len(),
            forall|j: int| 0 <= j < i ==> list@[j] != *key,
        decreases list@.len() - i,
    {
        if same_public(&list[i], key) {
            assert(list@[i as int] == *key);
            return true;
        }
        i = i + 1;
    }
    false
}

} // verus!
