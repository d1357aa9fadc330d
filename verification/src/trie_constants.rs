//! Reserved header bytes of the persisted node layout, and the size threshold
//! above which a value may be replaced by its digest.
//!
//! The four markers share the top prefix `0b00` and are mutually exclusive in
//! a stored payload, in the fixed order: stored-hash marker, then legacy
//! marker, then policy-active marker.

use vstd::prelude::*;

verus! {

/// Values whose recorded byte range is at least this long are candidates for
/// hash substitution; shorter values are always embedded verbatim.
pub const INNER_HASH_TRESHOLD: usize = 33;

/// Header byte of the canonical empty node.
pub const EMPTY_TRIE: u8 = 0b00;

/// Leading marker recording that the inner-hashing policy is active for the
/// node (part of the persisted state; it must round-trip).
pub const ENCODED_META_ALLOW_HASH: u8 = 0b01;

/// Leading marker flagging that the bytes that follow hold a digest of the
/// value rather than the value itself.
pub const DEAD_HEADER_META_HASHED_VALUE: u8 = 0b10;

/// Leading marker flagging that the bytes that follow use the original
/// (pre-inner-hashing) on-disk format.
pub const OLD_HASHING: u8 = 0b11;

} // verus!
