pub mod config;
pub mod message;
pub mod miner;
pub mod node;
pub mod laws;
pub mod gossip;
pub mod peers;
