use crypto::digest::Digest;
use crypto::sha2::Sha256;
use vstd::prelude::*;
use vstd::string::StringExecFns;
use vstd::utf8::encode_utf8;

use crate::json::{comma_join, json_array, lemma_comma_join_push};

verus! {

pub const HASH_SIZE: usize = 32;

/// A SHA-256 digest.
pub type Hash = [u8; HASH_SIZE];

/// The all-zero digest that fresh headers carry.
pub const EMPTY_HASH: Hash = [
    0, 0, 0, 0, 0, 0, 0, 0, 0, 0, 0, 0, 0, 0, 0, 0,
    0, 0, 0, 0, 0, 0, 0, 0, 0, 0, 0, 0, 0, 0, 0, 0,
];

/// The leading bytes that a block's digest must have for its proof of work to count.
pub const DIFFICULTY: [u8; 2] = [0, 0];

/// The SHA-256 digest of a byte sequence.
pub uninterp spec fn sha256_digest(data: Seq<u8>) -> Seq<u8>;

/// Calls `Sha256` of the rust-crypto crate: feeds `data` with `Digest::input` and reads the
/// 32-byte result. The contract claims that the result is the value of `sha256_digest` on the
/// input bytes, and nothing more.
#[verifier::external_body]
fn sha256(data: &[u8]) -> (digest: Hash)
    ensures
        digest@ == sha256_digest(data@),
{
    let mut sha = Sha256::new();
    sha.input(data);
    let mut out = [0u8; 32];
    sha.result(&mut out);
    out
}

/// The digest of a text: SHA-256 of its UTF-8 bytes.
pub open spec fn text_digest(text: Seq<char>) -> Seq<u8> {
    sha256_digest(encode_utf8(text))
}

/// Hashes the UTF-8 bytes of a string.
pub fn hash_string(hash_str: &str) -> (h: Hash)
    ensures
        h@ == text_digest(hash_str@),
{
    sha256(hash_str.as_bytes())
}

/// A value with a fixed JSON text, as `serde_json::to_string` writes it.
pub trait ToJson {
    /// The JSON text of the value.
    spec fn json(&self) -> Seq<char>;

    /// Writes the JSON text of the value.
    fn to_json(&self) -> (text: String)
        ensures
            text@ == self.json(),
    ;
}

/// The JSON texts of the items.
pub open spec fn json_texts<T: ToJson>(items: Seq<T>) -> Seq<Seq<char>> {
    Seq::new(items.len(), |i: int| items[i].json())
}

/// A sequence of values written as a JSON array.
pub open spec fn json_list<T: ToJson>(items: Seq<T>) -> Seq<char> {
    json_array(json_texts(items))
}

/// Appends the JSON array of the items.
pub fn push_json_list<T: ToJson>(out: &mut String, items: &Vec<T>)
    ensures
        final(out)@ == old(out)@ + json_list(items@),
{
    let ghost start = out@;
    let ghost texts = json_texts(items@);
    proof {
        reveal_strlit("[");
        reveal_strlit("]");
    }
    out.append("[");
    let mut i: usize = 0;
    while i < items.len()
        invariant
            i <= items@.len(),
            texts == json_texts(items@),
            out@ == start + seq!['['] + comma_join(texts.take(i as int)),
        decreases items@.len() - i,
    {
        let ghost before = out@;
        proof {
            reveal_strlit(",");
        }
        if i > 0 {
            out.append(",");
        }
        let text = items[i].to_json();
        out.append(text.as_str());
        proof {
            assert(texts[i as int] == items@[i as int].json());
            if i > 0 {
                assert(out@ =~= before + seq![','] + texts[i as int]);
            } else {
                assert(out@ =~= before + texts[i as int]);
            }
            lemma_comma_join_push(texts.take(i as int), texts[i as int]);
            assert(texts.take(i as int).push(texts[i as int]) =~= texts.take(i + 1));
        }
        i = i + 1;
    }
    out.append("]");
    assert(texts.take(items@.len() as int) =~= texts);
}

/// Hashes the JSON text of a value.
pub fn hash_struct<T: ToJson>(value: &T) -> (h: Hash)
    ensures
        h@ == text_digest(value.json()),
{
    let text = value.to_json();
    hash_string(text.as_str())
}

/// Hashes the JSON array of a list of values.
pub fn hash_vec<T: ToJson>(values: &Vec<T>) -> (h: Hash)
    ensures
        h@ == text_digest(json_list(values@)),
{
    let mut text = String::new();
    push_json_list(&mut text, values);
    hash_string(text.as_str())
}

} // verus!
