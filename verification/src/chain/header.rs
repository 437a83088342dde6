use chrono::Utc;
use vstd::prelude::*;
use vstd::string::StringExecFns;

use crate::chain::address::Public;
use crate::hash::{ToJson, DIFFICULTY, EMPTY_HASH};
use crate::json::{decimal, decimal_i64, json_bytes, push_bytes, push_decimal, push_i64};

verus! {

/// A block header.
#[derive(Clone, Debug, PartialEq, Eq)]
pub struct Header {
    pub index: u64,
    pub previous_hash: crate::hash::Hash,
    pub timestamp: i64,
    pub transactions_hash: crate::hash::Hash,
    pub nonce: u64,
    pub hash: crate::hash::Hash,
    pub difficulty: [u8; 2],
    pub coinbase: Public,
}

/// Reads the current UTC time in seconds since the Unix epoch with `chrono::Utc::now()`.
/// Nothing is claimed of the value.
#[verifier::external_body]
pub(crate) fn now_timestamp() -> (t: i64) {
    Utc::now().timestamp()
}

/// The header of the first block of every chain.
pub open spec fn genesis_header() -> Header {
    Header {
        index: 0,
        previous_hash: EMPTY_HASH,
        timestamp: 0,
        transactions_hash: EMPTY_HASH,
        nonce: 0,
        hash: EMPTY_HASH,
        difficulty: DIFFICULTY,
        coinbase: EMPTY_HASH,
    }
}

/// `h` is a fresh header that follows `prev`, pays `coinbase` and is stamped `timestamp`.
pub open spec fn header_follows(prev: Header, coinbase: Public, timestamp: i64, h: Header) -> bool {
    &&& h.index == prev.index + 1
    &&& h.timestamp == timestamp
    &&& h.previous_hash == prev.hash
    &&& h.transactions_hash == EMPTY_HASH
    &&& h.nonce == 0
    &&& h.hash == EMPTY_HASH
    &&& h.difficulty == DIFFICULTY
    &&& h.coinbase == coinbase
}

/// The JSON text of a header.
pub open spec fn header_json(h: Header) -> Seq<char> {
    "{\"index\":"@ + decimal(h.index as nat) + ",\"previous_hash\":"@ + json_bytes(
        h.previous_hash@,
    ) + ",\"timestamp\":"@ + decimal_i64(h.timestamp) + ",\"transactions_hash\":"@ + json_bytes(
        h.transactions_hash@,
    ) + ",\"nonce\":"@ + decimal(h.nonce as nat) + ",\"hash\":"@ + json_bytes(h.hash@)
        + ",\"difficulty\":"@ + json_bytes(h.difficulty@) + ",\"coinbase\":"@ + json_bytes(
        h.coinbase@,
    ) + "}"@
}

impl Header {
    /// The header that follows `prev_header`, stamped with the current time.
    pub fn new(prev_header: &Header, coinbase: Public) -> (h: Header)
        requires
            prev_header.index < u64::MAX,
        ensures
            header_follows(*prev_header, coinbase, h.timestamp, h),
    {
        let timestamp: i64 = now_timestamp();
        Self::new_at(prev_header, coinbase, timestamp)
    }

    /// The header that follows `prev_header`, stamped with `timestamp`.
    pub fn new_at(prev_header: &Header, coinbase: Public, timestamp: i64) -> (h: Header)
        requires
            prev_header.index < u64::MAX,
        ensures
            header_follows(*prev_header, coinbase, timestamp, h),
    {
        let index: u64 = prev_header.index + 1;
        let previous_hash = prev_header.hash;
        let nonce: u64 = 0;
        Header {
            index,
            previous_hash,
            timestamp,
            transactions_hash: EMPTY_HASH,
            nonce,
            hash: EMPTY_HASH,
            difficulty: DIFFICULTY,
            coinbase,
        }
    }

    /// A copy of the header.
    pub fn copy(&self) -> (h: Header)
        ensures
            h == *self,
    {
        Header {
            index: self.index,
            previous_hash: self.previous_hash,
            timestamp: self.timestamp,
            transactions_hash: self.transactions_hash,
            nonce: self.nonce,
            hash: self.hash,
            difficulty: self.difficulty,
            coinbase: self.coinbase,
        }
    }

    /// The genesis header.
    pub fn genesis() -> (h: Header)
        ensures
            h == genesis_header(),
    {
        Header {
            index: 0,
            previous_hash: EMPTY_HASH,
            timestamp: 0,
            transactions_hash: EMPTY_HASH,
            nonce: 0,
            hash: EMPTY_HASH,
            difficulty: DIFFICULTY,
            coinbase: EMPTY_HASH,
        }
    }
}

impl ToJson for Header {
    open spec fn json(&self) -> Seq<char> {
        header_json(*self)
    }

    fn to_json(&self) -> (text: String) {
        let mut out = String::new();
        out.append("{\"index\":");
        push_decimal(&mut out, self.index);
        out.append(",\"previous_hash\":");
        push_bytes(&mut out, self.previous_hash.as_slice());
        out.append(",\"timestamp\":");
        push_i64(&mut out, self.timestamp);
        out.append(",\"transactions_hash\":");
        push_bytes(&mut out, self.transactions_hash.as_slice());
        out.append(",\"nonce\":");
        push_decimal(&mut out, self.nonce);
        out.append(",\"hash\":");
        push_bytes(&mut out, self.hash.as_slice());
        out.append(",\"difficulty\":");
        push_bytes(&mut out, self.difficulty.as_slice());
        out.append(",\"coinbase\":");
        push_bytes(&mut out, self.coinbase.as_slice());
        out.append("}");
        assert(out@ =~= header_json(*self));
        out
    }
}

} // verus!
