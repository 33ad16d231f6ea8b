//! Search for a keypair whose hex address starts with a chosen prefix.
//!
//! The library holds the logic of the search: checking and matching
//! prefixes, deriving an address from a freshly generated key, one step of a
//! worker, and the coordinator that consumes the first match and estimates
//! throughput. Threads, channels, clocks and the console live with the caller.
pub mod coordinator;
pub mod keys;
pub mod pattern;
pub mod worker;
