pub mod chain;
pub mod consensus;
pub mod hash;
pub mod json;
pub mod wallet;
