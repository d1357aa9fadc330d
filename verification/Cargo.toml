[package]
name = "sp_trie"
version = "0.1.0"
edition = "2021"
publish = false

[dependencies]
hash-db = "*"
memory-db = "*"
keccak-hasher = "*"
parity-scale-codec = "*"
trie-db = "*"
trie-root = "*"
