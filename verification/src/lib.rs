//! Value-storage core of a content-addressed base-16 Merkle-Patricia trie
//! backend: per-node value metadata, the inner-value-hashing policy with its
//! two encoding generations, keyspace isolation over a shared node store, and
//! deterministic ordering of batched key/value deltas.
//!
//! The generic trie traversal engine is an external collaborator: it invokes
//! the [`meta::TrieMeta`] callbacks at fixed points of its encode/decode
//! pipeline and consults the hashing policy whenever a value is persisted or
//! read. Everything the engine delegates to this crate is verified here.

pub mod trie_constants;

pub mod meta;

pub mod lex;

pub mod digest;

pub mod inner_hash;

pub mod policy;

pub mod store;

pub mod keyspace;

pub mod delta;

pub mod compact;

