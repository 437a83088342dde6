use crypto::ed25519::{signature, verify};
use vstd::prelude::*;
use vstd::slice::slice_to_vec;
use vstd::string::StringExecFns;

use crate::chain::address::{contains_public, same_public, Public};
use crate::hash::{hash_struct, text_digest, ToJson};
use crate::json::{decimal, json_bytes, push_bytes, push_decimal};

verus! {

/// An amount of coin: the bit pattern of an IEEE-754 double, together with the JSON text
/// that `serde_json` writes for that double. Both come from the caller, who holds the double.
#[derive(Clone, Debug)]
pub struct Amount {
    pub bits: u64,
    pub json: String,
}

/// The bit pattern is a NaN: all exponent bits set and a nonzero fraction.
pub open spec fn is_nan_bits(bits: u64) -> bool {
    (bits & 0x7ff0_0000_0000_0000u64) == 0x7ff0_0000_0000_0000u64 && (bits
        & 0x000f_ffff_ffff_ffffu64) != 0
}

/// The bit pattern is a zero of either sign.
pub open spec fn is_zero_bits(bits: u64) -> bool {
    (bits & 0x7fff_ffff_ffff_ffffu64) == 0
}

/// IEEE-754 equality of the doubles with these bit patterns: no NaN equals anything, the two
/// zeros are equal, and otherwise equal doubles have equal bits.
pub open spec fn amounts_equal(a: u64, b: u64) -> bool {
    !is_nan_bits(a) && !is_nan_bits(b) && (a == b || (is_zero_bits(a) && is_zero_bits(b)))
}

impl Amount {
    /// IEEE-754 equality of the two amounts.
    pub fn equals(&self, other: &Amount) -> (eq: bool)
        ensures
            eq == amounts_equal(self.bits, other.bits),
    {
        let a = self.bits;
        let b = other.bits;
        let a_nan = (a & 0x7ff0_0000_0000_0000u64) == 0x7ff0_0000_0000_0000u64 && (a
            & 0x000f_ffff_ffff_ffffu64) != 0;
        let b_nan = (b & 0x7ff0_0000_0000_0000u64) == 0x7ff0_0000_0000_0000u64 && (b
            & 0x000f_ffff_ffff_ffffu64) != 0;
        !a_nan && !b_nan && (a == b || ((a & 0x7fff_ffff_ffff_ffffu64) == 0 && (b
            & 0x7fff_ffff_ffff_ffffu64) == 0))
    }

    /// A copy of the amount.
    pub fn copy(&self) -> (c: Amount)
        ensures
            c == *self,
    {
        Amount { bits: self.bits, json: self.json.clone() }
    }
}

/// A transfer of an amount from one address to another.
#[derive(Clone, Debug)]
pub struct Transaction {
    pub sender: Public,
    pub receiver: Public,
    pub amount: Amount,
    pub block: u64,
}

/// A transaction with the sender's signature of its digest.
#[derive(Clone, Debug)]
pub struct SignedTransaction {
    pub transaction: Transaction,
    pub signature: Vec<u8>,
}

/// Field-wise equality of two transactions, the amounts compared as doubles.
pub open spec fn same_transaction(a: Transaction, b: Transaction) -> bool {
    &&& a.sender == b.sender
    &&& a.receiver == b.receiver
    &&& amounts_equal(a.amount.bits, b.amount.bits)
    &&& a.block == b.block
}

/// Field-wise equality of two signed transactions.
pub open spec fn same_signed(a: SignedTransaction, b: SignedTransaction) -> bool {
    same_transaction(a.transaction, b.transaction) && a.signature@ == b.signature@
}

/// The JSON text of a transaction with these fields.
pub open spec fn transaction_json_of(
    sender: Seq<u8>,
    receiver: Seq<u8>,
    amount_json: Seq<char>,
    block: u64,
) -> Seq<char> {
    "{\"sender\":"@ + json_bytes(sender) + ",\"receiver\":"@ + json_bytes(receiver)
        + ",\"amount\":"@ + amount_json + ",\"block\":"@ + decimal(block as nat) + "}"@
}

/// The JSON text of a transaction.
pub open spec fn transaction_json(t: Transaction) -> Seq<char> {
    transaction_json_of(t.sender@, t.receiver@, t.amount.json@, t.block)
}

/// The JSON text of a signed transaction.
pub open spec fn signed_transaction_json(st: SignedTransaction) -> Seq<char> {
    "{\"transaction\":"@ + transaction_json(st.transaction) + ",\"signature\":"@ + json_bytes(
        st.signature@,
    ) + "}"@
}

/// The Ed25519 signature of a message under a secret key.
pub uninterp spec fn ed25519_signature(message: Seq<u8>, secret_key: Seq<u8>) -> Seq<u8>;

/// Whether Ed25519 verification accepts a signature of a message under a public key.
pub uninterp spec fn ed25519_accepts(
    message: Seq<u8>,
    public_key: Seq<u8>,
    signature: Seq<u8>,
) -> bool;

/// Calls `crypto::ed25519::signature` of rust-crypto. Its source slices the first 64 bytes
/// of the secret key, so the key must hold that many. The contract claims that the result is
/// the value of `ed25519_signature` on the arguments.
#[verifier::external_body]
fn sign_message(message: &[u8], secret_key: &[u8]) -> (sig: [u8; 64])
    requires
        secret_key@.len() >= 64,
    ensures
        sig@ == ed25519_signature(message@, secret_key@),
{
    signature(message, secret_key)
}

/// Calls `crypto::ed25519::verify` of rust-crypto. Its source reads the bytes 32 to 64 of the
/// signature and the first 32 bytes of the key, so both must hold that many. The contract
/// claims that the result is the value of `ed25519_accepts` on the arguments.
#[verifier::external_body]
fn check_signature(message: &[u8], public_key: &[u8], sig: &[u8]) -> (ok: bool)
    requires
        public_key@.len() >= 32,
        sig@.len() >= 64,
    ensures
        ok == ed25519_accepts(message@, public_key@, sig@),
{
    verify(message, public_key, sig)
}

/// The message that the sender signs: the digest of the transaction's JSON text.
pub open spec fn signing_message(t: Transaction) -> Seq<u8> {
    text_digest(transaction_json(t))
}

/// The signature is long enough to be checked.
pub open spec fn signature_well_sized(st: SignedTransaction) -> bool {
    st.signature@.len() >= 64
}

/// The signature verifies against the sender's key.
pub open spec fn signature_valid(st: SignedTransaction) -> bool {
    ed25519_accepts(signing_message(st.transaction), st.transaction.sender@, st.signature@)
}

/// The transaction is signed by its sender, and the sender is among the solvent addresses.
pub open spec fn transaction_valid(st: SignedTransaction, solvent: Seq<Public>) -> bool {
    signature_valid(st) && solvent.contains(st.transaction.sender)
}

impl Transaction {
    /// Field-wise equality, the amounts compared as doubles.
    pub fn equals(&self, other: &Transaction) -> (eq: bool)
        ensures
            eq == same_transaction(*self, *other),
    {
        same_public(&self.sender, &other.sender) && same_public(&self.receiver, &other.receiver)
            && self.amount.equals(&other.amount) && self.block == other.block
    }

    /// A copy of the transaction.
    pub fn copy(&self) -> (c: Transaction)
        ensures
            c == *self,
    {
        Transaction {
            sender: self.sender,
            receiver: self.receiver,
            amount: self.amount.copy(),
            block: self.block,
        }
    }
}

impl ToJson for Transaction {
    open spec fn json(&self) -> Seq<char> {
        transaction_json(*self)
    }

    fn to_json(&self) -> (text: String) {
        let mut out = String::new();
        out.append("{\"sender\":");
        push_bytes(&mut out, self.sender.as_slice());
        out.append(",\"receiver\":");
        push_bytes(&mut out, self.receiver.as_slice());
        out.append(",\"amount\":");
        out.append(self.amount.json.as_str());
        out.append(",\"block\":");
        push_decimal(&mut out, self.block);
        out.append("}");
        assert(out@ =~= transaction_json(*self));
        out
    }
}

/// Whether two byte vectors hold the same bytes.
pub fn same_bytes(a: &Vec<u8>, b: &Vec<u8>) -> (same: bool)
    ensures
        same == (a@ == b@),
{
    if a.len() != b.len() {
        return false;
    }
    let mut i: usize = 0;
    while i < a.len()
        invariant
            i <= a@.len(),
            a@.len() == b@.len(),
            forall|j: int| 0 <= j < i ==> a@[j] == b@[j],
        decreases a@.len() - i,
    {
        if a[i] != b[i] {
            return false;
        }
        i = i + 1;
    }
    assert(a@ =~= b@);
    true
}

/// A copy of a byte vector.
pub fn copy_bytes(v: &Vec<u8>) -> (c: Vec<u8>)
    ensures
        c@ == v@,
{
    slice_to_vec(v.as_slice())
}

impl SignedTransaction {
    /// Signs the digest of the transaction's JSON text with the sender's secret key.
    pub fn new(transaction: Transaction, sender_secret: &[u8]) -> (st: SignedTransaction)
        requires
            sender_secret@.len() >= 64,
        ensures
            st.transaction == transaction,
            st.signature@.len() == 64,
            st.signature@ == ed25519_signature(signing_message(transaction), sender_secret@),
    {
        let message = hash_struct(&transaction);
        let sig = sign_message(message.as_slice(), sender_secret);
        let signature: Vec<u8> = slice_to_vec(sig.as_slice());
        SignedTransaction { transaction, signature }
    }

    /// Whether the transaction is signed by its sender and the sender is solvent.
    pub fn verify(&self, solvent: &Vec<Public>) -> (ok: bool)
        requires
            signature_well_sized(*self),
        ensures
            ok == transaction_valid(*self, solvent@),
    {
        self.verify_signature() && self.verify_balance(solvent)
    }

    /// Whether the signature verifies against the sender's key.
    pub fn verify_signature(&self) -> (ok: bool)
        requires
            signature_well_sized(*self),
        ensures
            ok == signature_valid(*self),
    {
        let message = hash_struct(&self.transaction);
        check_signature(
            message.as_slice(),
            self.transaction.sender.as_slice(),
            self.signature.as_slice(),
        )
    }

    /// Whether the sender is among the addresses whose balance passes the floor.
    pub fn verify_balance(&self, solvent: &Vec<Public>) -> (ok: bool)
        ensures
            ok == solvent@.contains(self.transaction.sender),
    {
        contains_public(solvent, &self.transaction.sender)
    }

    /// Field-wise equality.
    pub fn equals(&self, other: &SignedTransaction) -> (eq: bool)
        ensures
            eq == same_signed(*self, *other),
    {
        self.transaction.equals(&other.transaction) && same_bytes(
            &self.signature,
            &other.signature,
        )
    }

    /// A copy of the signed transaction, equal field by field.
    pub fn copy(&self) -> (c: SignedTransaction)
        ensures
            c.transaction == self.transaction,
            c.signature@ == self.signature@,
    {
        SignedTransaction { transaction: self.transaction.copy(), signature: copy_bytes(&self.signature) }
    }
}

impl ToJson for SignedTransaction {
    open spec fn json(&self) -> Seq<char> {
        signed_transaction_json(*self)
    }

    fn to_json(&self) -> (text: String) {
        let mut out = String::new();
        out.append("{\"transaction\":");
        let inner = self.transaction.to_json();
        out.append(inner.as_str());
        out.append(",\"signature\":");
        push_bytes(&mut out, self.signature.as_slice());
        out.append("}");
        assert(out@ =~= signed_transaction_json(*self));
        out
    }
}

} // verus!
