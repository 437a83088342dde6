pub mod address;
pub mod transaction;
pub mod header;
pub mod block;
pub mod blockchain;
pub mod balance;
pub mod laws;
