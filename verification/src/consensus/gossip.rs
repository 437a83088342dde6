use vstd::prelude::*;
use vstd::string::StringExecFns;

use crate::chain::address::Public;
use crate::consensus::config::Config;
use crate::json::{decimal, push_decimal};

verus! {

/// A client that mines and gossips on a local port.
pub struct GossipClient;

/// The text of the local address with this port.
pub open spec fn local_address_text(port: u16) -> Seq<char> {
    "127.0.0.1:"@ + decimal(port as nat)
}

impl GossipClient {
    /// The local address with this port, as `ip:port` text.
    pub fn local_address(port: u16) -> (address: String)
        ensures
            address@ == local_address_text(port),
    {
        let mut address = String::new();
        address.append("127.0.0.1:");
        push_decimal(&mut address, port as u64);
        address
    }

    /// The configuration a client runs with on `port`, paying `wallet`: a 5 s write timeout,
    /// a 3 s detection period and detection groups of two.
    pub fn config(port: u16, wallet: Public) -> (config: Config)
        ensures
            config.address@ == local_address_text(port),
            config.wallet == wallet,
            config.timeout_ms == 5000,
            config.detection_period_ms == 3000,
            config.detection_group_size == 2,
    {
        Config {
            address: Self::local_address(port),
            timeout_ms: 5000,
            wallet,
            detection_period_ms: 3000,
            detection_group_size: 2,
        }
    }

    /// The address of the node that every client knows from the start: the local port 3000.
    pub fn default_node() -> (address: String)
        ensures
            address@ == local_address_text(3000),
    {
        Self::local_address(3000)
    }
}

} // verus!
