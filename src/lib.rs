//! A content-addressed world-state store: record shapes with a canonical
//! binary encoding, the storage adapter that serves a Merkle-Patricia trie
//! from a key-value backend, the build/commit protocol with its root
//! registry, filtered scans, and the statements that mirror the store into a
//! relational database.

pub mod codec;
pub mod crypto;
pub mod hashing;
pub mod ledger;
pub mod mirror;
pub mod pipeline;
pub mod query;
pub mod records;
pub mod storage;
