use rand::Rng;
use vstd::prelude::*;
use vstd::string::StringExecFns;

use crate::chain::address::Public;
use crate::chain::header::{genesis_header, header_follows, header_json, now_timestamp, Header};
use crate::chain::transaction::{
    same_signed, signature_well_sized, transaction_valid, SignedTransaction,
};
use crate::hash::{hash_struct, hash_vec, json_list, push_json_list, text_digest, ToJson, DIFFICULTY};

verus! {

/// A block: a header and the signed transactions it carries.
#[derive(Clone, Debug)]
pub struct Block {
    pub header: Header,
    pub transactions: Vec<SignedTransaction>,
}

/// Draws a random nonce from `rand::thread_rng()`. Nothing is claimed of the value.
#[verifier::external_body]
pub(crate) fn random_nonce() -> (nonce: u64) {
    let mut rng = rand::thread_rng();
    let nonce: u64 = rng.gen();
    nonce
}

/// The JSON text of a block.
pub open spec fn block_json(b: Block) -> Seq<char> {
    "{\"header\":"@ + header_json(b.header) + ",\"transactions\":"@ + json_list(b.transactions@)
        + "}"@
}

/// The digest of a block: SHA-256 of its JSON text.
pub open spec fn block_digest(b: Block) -> Seq<u8> {
    text_digest(block_json(b))
}

/// The digest of a list of transactions: SHA-256 of its JSON array.
pub open spec fn transactions_digest(txs: Seq<SignedTransaction>) -> Seq<u8> {
    text_digest(json_list(txs))
}

/// The digest starts with the bytes of `DIFFICULTY`.
pub open spec fn meets_difficulty(digest: Seq<u8>) -> bool {
    digest[0] == DIFFICULTY[0] && digest[1] == DIFFICULTY[1]
}

/// The genesis block: the genesis header and no transactions.
pub open spec fn is_genesis_block(b: Block) -> bool {
    b.header == genesis_header() && b.transactions@.len() == 0
}

/// `b` is a fresh, empty block that follows `prev`, pays `coinbase` and is stamped
/// `timestamp`.
pub open spec fn block_follows(prev: Block, coinbase: Public, timestamp: i64, b: Block) -> bool {
    header_follows(prev.header, coinbase, timestamp, b.header) && b.transactions@.len() == 0
}

/// `new` is `old` with the digest of `txs` as its transactions hash, stamped `timestamp`.
pub open spec fn header_refreshed(
    old: Header,
    new: Header,
    txs: Seq<SignedTransaction>,
    timestamp: i64,
) -> bool {
    &&& new.transactions_hash@ == transactions_digest(txs)
    &&& new.timestamp == timestamp
    &&& new.index == old.index
    &&& new.previous_hash == old.previous_hash
    &&& new.nonce == old.nonce
    &&& new.hash == old.hash
    &&& new.difficulty == old.difficulty
    &&& new.coinbase == old.coinbase
}

/// Every signature is long enough to be checked.
pub open spec fn signatures_well_sized(txs: Seq<SignedTransaction>) -> bool {
    forall|i: int| 0 <= i < txs.len() ==> signature_well_sized(#[trigger] txs[i])
}

/// Checking the transactions in order meets a signature too short to check before meeting
/// an invalid transaction.
pub open spec fn check_meets_short_signature(txs: Seq<SignedTransaction>, solvent: Seq<Public>) -> bool {
    exists|i: int|
        0 <= i < txs.len() && !signature_well_sized(#[trigger] txs[i]) && forall|j: int|
            0 <= j < i ==> signature_well_sized(#[trigger] txs[j]) && transaction_valid(
                txs[j],
                solvent,
            )
}

/// Some transaction of the list equals `t` field by field.
pub open spec fn contains_signed(txs: Seq<SignedTransaction>, t: SignedTransaction) -> bool {
    exists|i: int| 0 <= i < txs.len() && same_signed(#[trigger] txs[i], t)
}

/// Every transaction of the list is valid.
pub open spec fn all_valid(txs: Seq<SignedTransaction>, solvent: Seq<Public>) -> bool {
    forall|i: int| 0 <= i < txs.len() ==> transaction_valid(#[trigger] txs[i], solvent)
}

/// Every transaction of the block is valid.
pub open spec fn block_valid(b: Block, solvent: Seq<Public>) -> bool {
    all_valid(b.transactions@, solvent)
}

/// The valid transactions of the list, in their order.
pub open spec fn valid_transactions(txs: Seq<SignedTransaction>, solvent: Seq<Public>) -> Seq<
    SignedTransaction,
>
    decreases txs.len(),
{
    if txs.len() == 0 {
        seq![]
    } else {
        let rest = valid_transactions(txs.drop_last(), solvent);
        if transaction_valid(txs.last(), solvent) {
            rest.push(txs.last())
        } else {
            rest
        }
    }
}

/// Two signed transactions with the same transaction and the same signature bytes.
pub open spec fn same_content(a: SignedTransaction, b: SignedTransaction) -> bool {
    a.transaction == b.transaction && a.signature@ == b.signature@
}

/// Two blocks with the same header and the same transactions.
pub open spec fn same_block(a: Block, b: Block) -> bool {
    &&& a.header == b.header
    &&& a.transactions@.len() == b.transactions@.len()
    &&& forall|i: int|
        0 <= i < a.transactions@.len() ==> same_content(
            #[trigger] a.transactions@[i],
            b.transactions@[i],
        )
}

/// Blocks with the same content are valid alike and check alike.
pub proof fn same_block_alike(a: Block, b: Block, solvent: Seq<Public>)
    requires
        same_block(a, b),
    ensures
        block_valid(a, solvent) == block_valid(b, solvent),
        signatures_well_sized(a.transactions@) == signatures_well_sized(b.transactions@),
        check_meets_short_signature(a.transactions@, solvent) == check_meets_short_signature(
            b.transactions@,
            solvent,
        ),
{
    let ta = a.transactions@;
    let tb = b.transactions@;
    assert forall|i: int| 0 <= i < ta.len() implies (#[trigger] ta[i]).transaction == tb[i].transaction
        && ta[i].signature@ == tb[i].signature@ by {
        assert(same_content(ta[i], tb[i]));
    }
    assert(block_valid(a, solvent) == block_valid(b, solvent)) by {
        if block_valid(b, solvent) {
            assert forall|i: int| 0 <= i < ta.len() implies transaction_valid(
                #[trigger] ta[i],
                solvent,
            ) by {
                assert(transaction_valid(tb[i], solvent));
            }
        }
        if block_valid(a, solvent) {
            assert forall|i: int| 0 <= i < tb.len() implies transaction_valid(
                #[trigger] tb[i],
                solvent,
            ) by {
                assert(transaction_valid(ta[i], solvent));
            }
        }
    }
    assert(signatures_well_sized(ta) == signatures_well_sized(tb)) by {
        if signatures_well_sized(tb) {
            assert forall|i: int| 0 <= i < ta.len() implies signature_well_sized(#[trigger] ta[i]) by {
                assert(signature_well_sized(tb[i]));
            }
        }
        if signatures_well_sized(ta) {
            assert forall|i: int| 0 <= i < tb.len() implies signature_well_sized(#[trigger] tb[i]) by {
                assert(signature_well_sized(ta[i]));
            }
        }
    }
    assert(check_meets_short_signature(ta, solvent) == check_meets_short_signature(tb, solvent)) by {
        if check_meets_short_signature(ta, solvent) {
            let i = choose|i: int|
                0 <= i < ta.len() && !signature_well_sized(#[trigger] ta[i]) && forall|j: int|
                    0 <= j < i ==> signature_well_sized(#[trigger] ta[j]) && transaction_valid(
                        ta[j],
                        solvent,
                    );
            assert(!signature_well_sized(tb[i]));
            assert forall|j: int| 0 <= j < i implies signature_well_sized(#[trigger] tb[j])
                && transaction_valid(tb[j], solvent) by {
                assert(signature_well_sized(ta[j]) && transaction_valid(ta[j], solvent));
            }
        }
        if check_meets_short_signature(tb, solvent) {
            let i = choose|i: int|
                0 <= i < tb.len() && !signature_well_sized(#[trigger] tb[i]) && forall|j: int|
                    0 <= j < i ==> signature_well_sized(#[trigger] tb[j]) && transaction_valid(
                        tb[j],
                        solvent,
                    );
            assert(!signature_well_sized(ta[i]));
            assert forall|j: int| 0 <= j < i implies signature_well_sized(#[trigger] ta[j])
                && transaction_valid(ta[j], solvent) by {
                assert(signature_well_sized(tb[j]) && transaction_valid(tb[j], solvent));
            }
        }
    }
}

impl Block {
    /// A copy of the block.
    pub fn copy(&self) -> (c: Block)
        ensures
            same_block(c, *self),
    {
        let mut transactions: Vec<SignedTransaction> = Vec::new();
        let mut i: usize = 0;
        while i < self.transactions.len()
            invariant
                i <= self.transactions@.len(),
                transactions@.len() == i,
                forall|j: int|
                    0 <= j < i ==> same_content(
                        #[trigger] transactions@[j],
                        self.transactions@[j],
                    ),
            decreases self.transactions@.len() - i,
        {
            transactions.push(self.transactions[i].copy());
            i = i + 1;
        }
        Block { header: self.header.copy(), transactions }
    }

    /// The empty block that follows `prev_block` and pays `address`, stamped with the current
    /// time.
    pub fn new(prev_block: &Block, address: Public) -> (b: Block)
        requires
            prev_block.header.index < u64::MAX,
        ensures
            block_follows(*prev_block, address, b.header.timestamp, b),
    {
        let timestamp = now_timestamp();
        Self::new_at(prev_block, address, timestamp)
    }

    /// The empty block that follows `prev_block` and pays `address`, stamped `timestamp`.
    pub fn new_at(prev_block: &Block, address: Public, timestamp: i64) -> (b: Block)
        requires
            prev_block.header.index < u64::MAX,
        ensures
            block_follows(*prev_block, address, timestamp, b),
    {
        let transactions: Vec<SignedTransaction> = Vec::new();
        Block { header: Header::new_at(&prev_block.header, address, timestamp), transactions }
    }

    /// Adds a valid transaction that the block does not hold yet, and refreshes the header
    /// with the current time.
    pub fn add_transaction(&mut self, transaction: SignedTransaction, solvent: &Vec<Public>) -> (added: bool)
        requires
            signature_well_sized(transaction),
        ensures
            added == (transaction_valid(transaction, solvent@) && !contains_signed(
                old(self).transactions@,
                transaction,
            )),
            added ==> final(self).transactions@ == old(self).transactions@.push(transaction),
            added ==> header_refreshed(
                old(self).header,
                final(self).header,
                final(self).transactions@,
                final(self).header.timestamp,
            ),
            !added ==> *final(self) == *old(self),
    {
        let timestamp = now_timestamp();
        self.add_transaction_at(transaction, solvent, timestamp)
    }

    /// Adds a valid transaction that the block does not hold yet, and refreshes the header
    /// with `timestamp`.
    pub fn add_transaction_at(
        &mut self,
        transaction: SignedTransaction,
        solvent: &Vec<Public>,
        timestamp: i64,
    ) -> (added: bool)
        requires
            signature_well_sized(transaction),
        ensures
            added == (transaction_valid(transaction, solvent@) && !contains_signed(
                old(self).transactions@,
                transaction,
            )),
            added ==> final(self).transactions@ == old(self).transactions@.push(transaction),
            added ==> header_refreshed(
                old(self).header,
                final(self).header,
                final(self).transactions@,
                timestamp,
            ),
            !added ==> *final(self) == *old(self),
    {
        if transaction.verify(solvent) {
            if !self.contains(&transaction) {
                self.transactions.push(transaction);
                self.update_header_at(timestamp);
                return true;
            }
        }
        false
    }

    /// Sets the header's transactions hash to the digest of the transactions, and stamps it
    /// with the current time.
    pub fn update_header(&mut self)
        ensures
            final(self).transactions == old(self).transactions,
            header_refreshed(
                old(self).header,
                final(self).header,
                old(self).transactions@,
                final(self).header.timestamp,
            ),
    {
        let timestamp = now_timestamp();
        self.update_header_at(timestamp);
    }

    /// Sets the header's transactions hash to the digest of the transactions, and stamps it
    /// with `timestamp`.
    pub fn update_header_at(&mut self, timestamp: i64)
        ensures
            final(self).transactions == old(self).transactions,
            header_refreshed(old(self).header, final(self).header, old(self).transactions@, timestamp),
    {
        self.header.transactions_hash = hash_vec(&self.transactions);
        self.header.timestamp = timestamp;
    }

    /// Tries `nonce`: stores it in the header and tells whether the block's digest meets the
    /// difficulty.
    pub fn prove_work_with_nonce(&mut self, nonce: u64) -> (found: bool)
        ensures
            final(self).transactions == old(self).transactions,
            final(self).header == (Header { nonce: nonce, ..old(self).header }),
            found == meets_difficulty(block_digest(*final(self))),
    {
        self.header.nonce = nonce;
        let digest = hash_struct(&*self);
        digest[0] == DIFFICULTY[0] && digest[1] == DIFFICULTY[1]
    }

    /// Tries a random nonce.
    pub fn prove_work(&mut self) -> (found: bool)
        ensures
            final(self).transactions == old(self).transactions,
            final(self).header == (Header { nonce: final(self).header.nonce, ..old(self).header }),
            found == meets_difficulty(block_digest(*final(self))),
    {
        let nonce = random_nonce();
        self.prove_work_with_nonce(nonce)
    }

    /// Keeps the valid transactions only, in their order.
    pub fn filter_transactions(&mut self, solvent: &Vec<Public>)
        requires
            signatures_well_sized(old(self).transactions@),
        ensures
            final(self).header == old(self).header,
            final(self).transactions@ == valid_transactions(old(self).transactions@, solvent@),
    {
        let mut pending: Vec<SignedTransaction> = Vec::new();
        std::mem::swap(&mut pending, &mut self.transactions);
        let ghost orig = pending@;
        let ghost mut k: int = 0;
        let mut kept: Vec<SignedTransaction> = Vec::new();
        while pending.len() > 0
            invariant
                0 <= k <= orig.len(),
                signatures_well_sized(orig),
                pending@ == orig.skip(k),
                kept@ == valid_transactions(orig.take(k), solvent@),
            decreases pending@.len(),
        {
            let t = pending.remove(0);
            proof {
                assert(t == orig[k]);
                assert(orig.take(k + 1).drop_last() =~= orig.take(k));
                assert(orig.take(k + 1).last() == orig[k]);
            }
            if t.verify(solvent) {
                kept.push(t);
            }
            proof {
                k = k + 1;
                assert(pending@ =~= orig.skip(k));
            }
        }
        assert(orig.take(k) =~= orig);
        self.transactions = kept;
    }

    /// Whether the block holds a transaction equal to `transaction` field by field.
    pub fn contains(&mut self, transaction: &SignedTransaction) -> (found: bool)
        ensures
            found == contains_signed(old(self).transactions@, *transaction),
            *final(self) == *old(self),
    {
        let mut i: usize = 0;
        while i < self.transactions.len()
            invariant
                i <= self.transactions@.len(),
                forall|j: int| 0 <= j < i ==> !same_signed(self.transactions@[j], *transaction),
            decreases self.transactions@.len() - i,
        {
            if self.transactions[i].equals(transaction) {
                return true;
            }
            i = i + 1;
        }
        false
    }

    /// Whether every transaction of the block is valid. The transactions are checked in order
    /// up to the first invalid one, so a signature too short to check must not come before it.
    pub fn verify(&self, solvent: &Vec<Public>) -> (ok: bool)
        requires
            !check_meets_short_signature(self.transactions@, solvent@),
        ensures
            ok == block_valid(*self, solvent@),
    {
        let mut i: usize = 0;
        while i < self.transactions.len()
            invariant
                i <= self.transactions@.len(),
                !check_meets_short_signature(self.transactions@, solvent@),
                forall|j: int|
                    0 <= j < i ==> signature_well_sized(#[trigger] self.transactions@[j])
                        && transaction_valid(self.transactions@[j], solvent@),
            decreases self.transactions@.len() - i,
        {
            assert(signature_well_sized(self.transactions@[i as int]));
            if self.transactions[i].verify(solvent) == false {
                return false;
            }
            i = i + 1;
        }
        true
    }

    /// Whether checking the transactions in order would meet a signature too short to check
    /// before any invalid transaction.
    pub fn meets_short_signature(&self, solvent: &Vec<Public>) -> (short: bool)
        ensures
            short == check_meets_short_signature(self.transactions@, solvent@),
    {
        let mut i: usize = 0;
        while i < self.transactions.len()
            invariant
                i <= self.transactions@.len(),
                forall|j: int|
                    0 <= j < i ==> signature_well_sized(#[trigger] self.transactions@[j])
                        && transaction_valid(self.transactions@[j], solvent@),
            decreases self.transactions@.len() - i,
        {
            if self.transactions[i].signature.len() < 64 {
                return true;
            }
            if self.transactions[i].verify(solvent) == false {
                proof {
                    assert forall|k: int|
                        0 <= k < self.transactions@.len() && !signature_well_sized(
                            #[trigger] self.transactions@[k],
                        ) implies !(forall|j: int|
                        0 <= j < k ==> signature_well_sized(#[trigger] self.transactions@[j])
                            && transaction_valid(self.transactions@[j], solvent@)) by {
                        assert(k > i);
                        assert(!transaction_valid(self.transactions@[i as int], solvent@));
                    }
                }
                return false;
            }
            i = i + 1;
        }
        false
    }

    /// The genesis block.
    pub fn genesis() -> (b: Block)
        ensures
            is_genesis_block(b),
    {
        let transactions: Vec<SignedTransaction> = Vec::new();
        let header = Header::genesis();
        Block { header, transactions }
    }
}

impl ToJson for Block {
    open spec fn json(&self) -> Seq<char> {
        block_json(*self)
    }

    fn to_json(&self) -> (text: String) {
        let mut out = String::new();
        out.append("{\"header\":");
        let header = self.header.to_json();
        out.append(header.as_str());
        out.append(",\"transactions\":");
        push_json_list(&mut out, &self.transactions);
        out.append("}");
        assert(out@ =~= block_json(*self));
        out
    }
}

} // verus!
