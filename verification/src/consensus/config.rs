use vstd::prelude::*;

use crate::chain::address::Public;

verus! {

/// How a node runs: the address it listens on (as `ip:port` text), the wallet its blocks
/// pay, and the timing of its peer protocol in milliseconds.
pub struct Config {
    pub address: String,
    pub wallet: Public,
    pub timeout_ms: u64,
    pub detection_period_ms: u64,
    pub detection_group_size: u16,
}

} // verus!
