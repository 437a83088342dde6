use vstd::prelude::*;
use vstd::string::StrSliceExecFns;

use crate::chain::address::{base58_bytes, decode_base58, is_base58_char, Public};
use crate::chain::transaction::{
    ed25519_accepts, ed25519_signature, signature_valid, signing_message, transaction_json_of,
    Amount, SignedTransaction, Transaction,
};
use crate::hash::text_digest;

verus! {

/// The 32 bytes of a slice that holds exactly 32.
pub fn slice_to_arr32(slice: &[u8]) -> (arr: Option<[u8; 32]>)
    ensures
        arr is Some <==> slice@.len() == 32,
        arr matches Some(a) ==> a@ == slice@,
{
    if slice.len() == 32 {
        let mut a = [0u8; 32];
        let mut i: usize = 0;
        while i < 32
            invariant
                i <= 32,
                slice@.len() == 32,
                forall|j: int| 0 <= j < i ==> a[j] == slice@[j],
            decreases 32 - i,
        {
            a[i] = slice[i];
            i = i + 1;
        }
        assert(a@ =~= slice@);
        Some(a)
    } else {
        None
    }
}

/// A decimal digit character.
pub open spec fn is_digit(c: char) -> bool {
    '0' <= c && c <= '9'
}

/// The value of a text of decimal digits.
pub open spec fn digits_value(s: Seq<char>) -> nat
    decreases s.len(),
{
    if s.len() == 0 {
        0
    } else {
        digits_value(s.drop_last()) * 10 + (s.last() as nat - '0' as nat) as nat
    }
}

/// The digits of a number text: what follows an optional leading `+`.
pub open spec fn number_body(s: Seq<char>) -> Seq<char> {
    if s.len() > 0 && s[0] == '+' {
        s.drop_first()
    } else {
        s
    }
}

/// The text is an unsigned 64-bit number as `u64::from_str` reads it: an optional `+`, then
/// one or more digits whose value fits.
pub open spec fn is_u64_text(s: Seq<char>) -> bool {
    let body = number_body(s);
    &&& body.len() > 0
    &&& forall|i: int| 0 <= i < body.len() ==> is_digit(#[trigger] body[i])
    &&& digits_value(body) <= u64::MAX
}

/// Reads a block number as `u64::from_str` does.
pub fn parse_block_number(text: &str) -> (n: Option<u64>)
    ensures
        n is Some <==> is_u64_text(text@),
        n matches Some(v) ==> v == digits_value(number_body(text@)),
{
    let len = text.unicode_len();
    let mut i: usize = 0;
    if len > 0 && text.get_char(0) == '+' {
        i = 1;
    }
    let ghost body = number_body(text@);
    assert(body =~= text@.skip(i as int));
    if i == len {
        return None;
    }
    let mut value: u64 = 0;
    let start = i;
    while i < len
        invariant
            len == text@.len(),
            start <= i <= len,
            start < len,
            body =~= text@.skip(start as int),
            body == number_body(text@),
            forall|k: int| start <= k < i ==> is_digit(#[trigger] text@[k]),
            value == digits_value(text@.subrange(start as int, i as int)),
        decreases len - i,
    {
        let c = text.get_char(i);
        proof {
            assert(text@.subrange(start as int, i + 1).drop_last() =~= text@.subrange(
                start as int,
                i as int,
            ));
            assert(text@.subrange(start as int, i + 1).last() == c);
        }
        if !('0' <= c && c <= '9') {
            assert(body[i - start] == c);
            assert(!is_digit(body[i - start]));
            return None;
        }
        let digit = (c as u32 - '0' as u32) as u64;
        if value > (u64::MAX - digit) / 10 {
            proof {
                assert(body.take(i - start) =~= text@.subrange(start as int, i as int));
                assert(body[i - start] == c);
                assert(value * 10 + digit > u64::MAX) by (nonlinear_arith)
                    requires
                        value > (u64::MAX - digit) / 10,
                        digit <= 9,
                ;
                assert(digit == body[i - start] as nat - '0' as nat);
                assert(value == digits_value(body.take(i - start)));
                if forall|k: int| 0 <= k < body.len() ==> is_digit(#[trigger] body[k]) {
                    lemma_digits_value_prefix(body, (i - start) as int);
                    assert(digits_value(body) > u64::MAX);
                }
            }
            return None;
        }
        value = value * 10 + digit;
        i = i + 1;
    }
    assert(text@.subrange(start as int, len as int) =~= body);
    Some(value)
}

/// A longer run of digits is worth at least as much as its prefix.
pub proof fn lemma_digits_value_prefix(s: Seq<char>, k: int)
    requires
        0 <= k <= s.len(),
        forall|i: int| 0 <= i < s.len() ==> is_digit(#[trigger] s[i]),
    ensures
        digits_value(s.take(k)) <= digits_value(s),
        k < s.len() ==> digits_value(s.take(k)) * 10 + (s[k] as nat - '0' as nat) <= digits_value(s),
    decreases s.len() - k,
{
    if k < s.len() {
        let t = s.take(k + 1);
        assert(t.drop_last() =~= s.take(k));
        assert(t.last() == s[k]);
        lemma_digits_value_prefix(s, k + 1);
        assert(digits_value(t) == digits_value(s.take(k)) * 10 + (s[k] as nat - '0' as nat));
    } else {
        assert(s.take(k) =~= s);
    }
}

/// The character has the Unicode `White_Space` property, as `char::is_whitespace` tests.
pub open spec fn is_whitespace(c: char) -> bool {
    ||| '\u{9}' <= c && c <= '\u{d}'
    ||| c == ' '
    ||| c == '\u{85}'
    ||| c == '\u{a0}'
    ||| c == '\u{1680}'
    ||| '\u{2000}' <= c && c <= '\u{200a}'
    ||| c == '\u{2028}'
    ||| c == '\u{2029}'
    ||| c == '\u{202f}'
    ||| c == '\u{205f}'
    ||| c == '\u{3000}'
}

/// The text without its leading whitespace.
pub open spec fn trimmed_start(s: Seq<char>) -> Seq<char>
    decreases s.len(),
{
    if s.len() > 0 && is_whitespace(s[0]) {
        trimmed_start(s.drop_first())
    } else {
        s
    }
}

/// The text without its trailing whitespace.
pub open spec fn trimmed_end(s: Seq<char>) -> Seq<char>
    decreases s.len(),
{
    if s.len() > 0 && is_whitespace(s.last()) {
        trimmed_end(s.drop_last())
    } else {
        s
    }
}

/// The text without whitespace at either end, as `str::trim` leaves it.
pub open spec fn trimmed(s: Seq<char>) -> Seq<char> {
    trimmed_end(trimmed_start(s))
}

/// Every character of the text is whitespace.
pub open spec fn all_whitespace(s: Seq<char>) -> bool {
    forall|i: int| 0 <= i < s.len() ==> is_whitespace(#[trigger] s[i])
}

/// Tests a character for the Unicode `White_Space` property.
pub fn is_whitespace_char(c: char) -> (b: bool)
    ensures
        b == is_whitespace(c),
{
    ('\u{9}' <= c && c <= '\u{d}') || c == ' ' || c == '\u{85}' || c == '\u{a0}'
        || c == '\u{1680}' || ('\u{2000}' <= c && c <= '\u{200a}') || c == '\u{2028}'
        || c == '\u{2029}' || c == '\u{202f}' || c == '\u{205f}' || c == '\u{3000}'
}

/// The text without whitespace at either end.
pub fn trim(text: &str) -> (t: &str)
    ensures
        t@ == trimmed(text@),
{
    let len = text.unicode_len();
    let mut i: usize = 0;
    assert(text@.skip(0) =~= text@);
    while i < len && is_whitespace_char(text.get_char(i))
        invariant
            len == text@.len(),
            i <= len,
            trimmed_start(text@) == trimmed_start(text@.skip(i as int)),
        decreases len - i,
    {
        assert(text@.skip(i as int).drop_first() =~= text@.skip(i + 1));
        assert(text@.skip(i as int)[0] == text@[i as int]);
        i = i + 1;
    }
    let ghost front = text@.skip(i as int);
    assert(trimmed_start(text@) == front) by {
        if i < len {
            assert(front[0] == text@[i as int]);
        } else {
            assert(front =~= Seq::<char>::empty());
        }
    }
    let mut j: usize = len;
    while j > i && is_whitespace_char(text.get_char(j - 1))
        invariant
            len == text@.len(),
            i <= j <= len,
            front == text@.skip(i as int),
            trimmed_end(front) == trimmed_end(text@.subrange(i as int, j as int)),
        decreases j,
    {
        let ghost r = text@.subrange(i as int, j as int);
        assert(r.drop_last() =~= text@.subrange(i as int, j - 1));
        assert(r.last() == text@[j - 1]);
        j = j - 1;
    }
    assert(front =~= text@.subrange(i as int, len as int));
    proof {
        let r = text@.subrange(i as int, j as int);
        if j > i {
            assert(r.last() == text@[j - 1]);
        } else {
            assert(r =~= Seq::<char>::empty());
        }
    }
    text.substring_char(i, j)
}

/// Leading whitespace goes before the rest of the text is looked at.
proof fn lemma_trimmed_start_skips(before: Seq<char>, s: Seq<char>)
    requires
        all_whitespace(before),
    ensures
        trimmed_start(before + s) == trimmed_start(s),
    decreases before.len(),
{
    if before.len() > 0 {
        assert((before + s)[0] == before[0]);
        assert((before + s).drop_first() =~= before.drop_first() + s);
        lemma_trimmed_start_skips(before.drop_first(), s);
    } else {
        assert(before + s =~= s);
    }
}

/// Trailing whitespace goes before the rest of the text is looked at.
proof fn lemma_trimmed_end_skips(s: Seq<char>, after: Seq<char>)
    requires
        all_whitespace(after),
    ensures
        trimmed_end(s + after) == trimmed_end(s),
    decreases after.len(),
{
    if after.len() > 0 {
        assert((s + after).last() == after.last());
        assert((s + after).drop_last() =~= s + after.drop_last());
        lemma_trimmed_end_skips(s, after.drop_last());
    } else {
        assert(s + after =~= s);
    }
}

/// Trimming the front of a text followed by more text: the front is trimmed as before, and
/// if nothing of it is left the trimming goes on into what follows.
proof fn lemma_trimmed_start_append(s: Seq<char>, after: Seq<char>)
    ensures
        trimmed_start(s).len() > 0 ==> trimmed_start(s + after) == trimmed_start(s) + after,
        trimmed_start(s).len() == 0 ==> trimmed_start(s + after) == trimmed_start(after),
    decreases s.len(),
{
    if s.len() == 0 {
        assert(s + after =~= after);
    } else if is_whitespace(s[0]) {
        assert((s + after)[0] == s[0]);
        assert((s + after).drop_first() =~= s.drop_first() + after);
        lemma_trimmed_start_append(s.drop_first(), after);
    } else {
        assert((s + after)[0] == s[0]);
    }
}

/// A text of whitespace alone trims to nothing.
proof fn lemma_trimmed_start_blank(s: Seq<char>)
    requires
        all_whitespace(s),
    ensures
        trimmed_start(s).len() == 0,
    decreases s.len(),
{
    if s.len() > 0 {
        lemma_trimmed_start_blank(s.drop_first());
    }
}

/// Whitespace around a text makes no difference to what trimming leaves.
pub proof fn surrounding_whitespace_is_ignored(s: Seq<char>, before: Seq<char>, after: Seq<char>)
    requires
        all_whitespace(before),
        all_whitespace(after),
    ensures
        trimmed(before + s + after) == trimmed(s),
{
    lemma_trimmed_start_skips(before, s + after);
    assert(before + s + after =~= before + (s + after));
    lemma_trimmed_start_append(s, after);
    if trimmed_start(s).len() > 0 {
        lemma_trimmed_end_skips(trimmed_start(s), after);
    } else {
        lemma_trimmed_start_blank(after);
        assert(trimmed_start(s) =~= trimmed_start(after));
    }
}

/// Why a wallet cannot build a transaction from its inputs.
#[derive(Clone, Copy, Debug, PartialEq, Eq, Structural)]
pub enum WalletError {
    /// A key text holds a character outside the base58 alphabet.
    InvalidKeyText,
    /// A public key does not decode to 32 bytes.
    WrongKeyLength,
    /// The amount is not a number.
    InvalidAmount,
    /// The block number is not a number.
    InvalidBlock,
    /// The secret key decodes to fewer than 64 bytes.
    ShortSecretKey,
}

/// Every character of the text is in the base58 alphabet.
pub open spec fn is_base58_text(text: Seq<char>) -> bool {
    forall|i: int| 0 <= i < text.len() ==> is_base58_char(#[trigger] text[i])
}

/// The error a wallet meets first with these inputs, checked in the order the wallet reads
/// them, if any.
pub open spec fn wallet_error(
    public_key: Seq<char>,
    private_key: Seq<char>,
    receiver: Seq<char>,
    amount_read: bool,
    block_number: Seq<char>,
) -> Option<WalletError> {
    if !is_base58_text(public_key) || !is_base58_text(receiver) || !is_base58_text(private_key) {
        Some(WalletError::InvalidKeyText)
    } else if base58_bytes(public_key).len() != 32 || base58_bytes(receiver).len() != 32 {
        Some(WalletError::WrongKeyLength)
    } else if !amount_read {
        Some(WalletError::InvalidAmount)
    } else if !is_u64_text(block_number) {
        Some(WalletError::InvalidBlock)
    } else if base58_bytes(private_key).len() < 64 {
        Some(WalletError::ShortSecretKey)
    } else {
        None
    }
}

/// The message a wallet signs for a transaction with these fields.
pub open spec fn wallet_message(sender: Seq<u8>, receiver: Seq<u8>, amount: Amount, block: u64) -> Seq<u8> {
    text_digest(transaction_json_of(sender, receiver, amount.json@, block))
}

/// The signature made with `secret` of a transaction with these fields verifies against the
/// sender's key.
pub open spec fn wallet_signature_verifies(
    sender: Seq<u8>,
    secret: Seq<u8>,
    receiver: Seq<u8>,
    amount: Amount,
    block: u64,
) -> bool {
    let message = wallet_message(sender, receiver, amount, block);
    ed25519_accepts(message, sender, ed25519_signature(message, secret))
}

/// Builds and signs the transaction a wallet user typed: the keys as base58 texts, the
/// amount (`None` when its text could not be read as a number), and the block number as
/// decimal text. Whitespace around each text is left out. Gives the signed transaction when
/// its signature verifies against the sender's key, and nothing when it does not.
pub fn prepare_transaction(
    public_key: &str,
    private_key: &str,
    receiver: &str,
    amount: Option<Amount>,
    block_number: &str,
) -> (result: Result<Option<SignedTransaction>, WalletError>)
    ensures
        ({
            let pk = trimmed(public_key@);
            let sk = trimmed(private_key@);
            let rk = trimmed(receiver@);
            let bn = trimmed(block_number@);
            &&& wallet_error(pk, sk, rk, amount is Some, bn) matches Some(e)
                ==> result == Err::<Option<SignedTransaction>, WalletError>(e)
            &&& wallet_error(pk, sk, rk, amount is Some, bn) is None ==> {
                &&& result matches Ok(signed)
                &&& signed matches Some(st) ==> {
                    &&& st.transaction.sender@ == base58_bytes(pk)
                    &&& st.transaction.receiver@ == base58_bytes(rk)
                    &&& st.transaction.amount == amount.unwrap()
                    &&& st.transaction.block == digits_value(number_body(bn))
                    &&& st.signature@ == ed25519_signature(
                        signing_message(st.transaction),
                        base58_bytes(sk),
                    )
                    &&& signature_valid(st)
                }
                &&& signed is Some <==> wallet_signature_verifies(
                    base58_bytes(pk),
                    base58_bytes(sk),
                    base58_bytes(rk),
                    amount.unwrap(),
                    digits_value(number_body(bn)) as u64,
                )
            }
        }),
{
    let public_key = trim(public_key);
    let private_key = trim(private_key);
    let receiver = trim(receiver);
    let block_number = trim(block_number);
    let sender = match decode_base58(public_key) {
        Some(b) => b,
        None => return Err(WalletError::InvalidKeyText),
    };
    let receiver_key = match decode_base58(receiver) {
        Some(b) => b,
        None => return Err(WalletError::InvalidKeyText),
    };
    let secret = match decode_base58(private_key) {
        Some(b) => b,
        None => return Err(WalletError::InvalidKeyText),
    };
    let sender: Public = match slice_to_arr32(sender.as_slice()) {
        Some(a) => a,
        None => return Err(WalletError::WrongKeyLength),
    };
    let receiver_key: Public = match slice_to_arr32(receiver_key.as_slice()) {
        Some(a) => a,
        None => return Err(WalletError::WrongKeyLength),
    };
    let amount = match amount {
        Some(a) => a,
        None => return Err(WalletError::InvalidAmount),
    };
    let block = match parse_block_number(block_number) {
        Some(n) => n,
        None => return Err(WalletError::InvalidBlock),
    };
    if secret.len() < 64 {
        return Err(WalletError::ShortSecretKey);
    }
    let transaction = Transaction { sender, receiver: receiver_key, amount, block };
    let signed = SignedTransaction::new(transaction, secret.as_slice());
    if signed.verify_signature() {
        Ok(Some(signed))
    } else {
        Ok(None)
    }
}

} // verus!
