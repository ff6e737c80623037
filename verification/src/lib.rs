//! Storage layer of a staking vault: the keys under which the vault keeps its
//! state, the reward arithmetic, and the read-modify-write operations on a
//! contract's instance and persistent storage.

pub mod host;
pub mod keys;
pub mod laws;
pub mod rewards;
pub mod storage;
pub mod types;
