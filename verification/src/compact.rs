//! The compact integer encoding of the wire codec, used for child-trie
//! indexes and for sizing a stored entry without re-encoding it.

use vstd::prelude::*;

use parity_scale_codec::{Compact, Encode};

use crate::meta::TrieMeta;
use crate::policy::range_reaches_threshold;
use crate::trie_constants::INNER_HASH_TRESHOLD;

verus! {

/// The four little-endian bytes of a value below two to the thirty-second.
pub open spec fn le4_spec(w: int) -> Seq<u8> {
    seq![
        (w % 256) as u8,
        ((w / 256) % 256) as u8,
        ((w / 65536) % 256) as u8,
        ((w / 16777216) % 256) as u8,
    ]
}

/// How many bytes the compact encoding of a value takes: one up to 63, two
/// up to two to the fourteenth, four up to two to the thirtieth, five
/// beyond.
pub open spec fn compact_len_spec(v: int) -> int {
    if v < 64 {
        1
    } else if v < 16384 {
        2
    } else if v < 0x4000_0000 {
        4
    } else {
        5
    }
}

/// The compact encoding of a value: the value shifted up by two bits with
/// the width mode in the low bits, little-endian; values of four full bytes
/// stand after a lone mode byte.
pub open spec fn compact_u32_spec(v: u32) -> Seq<u8> {
    if v < 64 {
        seq![(v * 4) as u8]
    } else if v < 16384 {
        seq![((v * 4 + 1) % 256) as u8, ((v * 4 + 1) / 256) as u8]
    } else if v < 0x4000_0000 {
        le4_spec(v * 4 + 2)
    } else {
        seq![3u8] + le4_spec(v as int)
    }
}

/// Relies on `parity_scale_codec::Compact<u32>`'s `Encode` implementation:
/// the encoding is the value shifted up two bits with the width mode in the
/// low bits, little-endian.
#[verifier::external_body]
fn compact_encode_u32(input: u32) -> (r: Vec<u8>)
    ensures
        r@ == compact_u32_spec(input),
{
    Encode::encode(&Compact(input))
}

/// Relies on `parity_scale_codec::Encode::encoded_size` for byte vectors: a
/// compact length prefix followed by the bytes themselves, the length
/// encoded as a value of at most thirty-two bits.
#[verifier::external_body]
fn scale_encoded_size(value: &Vec<u8>) -> (r: usize)
    requires
        value@.len() <= 0xffff_ffff,
        compact_len_spec(value@.len() as int) + value@.len() <= usize::MAX,
    ensures
        r == compact_len_spec(value@.len() as int) + value@.len(),
{
    value.encoded_size()
}

/// The index of a child trie in its canonical wire form.
pub fn encode_index(input: u32) -> (r: Vec<u8>)
    ensures
        r@ == compact_u32_spec(input),
{
    compact_encode_u32(input)
}

/// The length of the record's byte range.
pub open spec fn range_len_spec(m: TrieMeta) -> int {
    match m.range {
        Some((start, end)) => end - start,
        None => 0,
    }
}

/// The on-disk size a stored entry is expected to take: the encoded size of
/// its bytes, with the value range traded for one digest and one marker byte
/// where the entry is still a candidate for hash substitution.
pub open spec fn estimate_entry_size_spec(value: Seq<u8>, m: TrieMeta, hash_len: int) -> int {
    let full = compact_len_spec(value.len() as int) + value.len();
    if m.unused_value && range_reaches_threshold(m) {
        full - range_len_spec(m) + hash_len + 1
    } else {
        full
    }
}

/// Estimates the encoded size of a stored entry.
pub fn estimate_entry_size(entry: &(Vec<u8>, TrieMeta), hash_len: usize) -> (r: usize)
    requires
        entry.0@.len() <= 0xffff_ffff,
        compact_len_spec(entry.0@.len() as int) + entry.0@.len() <= usize::MAX,
        (entry.1.range matches Some((start, end)) ==> start <= end),
        entry.1.unused_value && range_reaches_threshold(entry.1) ==> range_len_spec(entry.1)
            <= compact_len_spec(entry.0@.len() as int) + entry.0@.len(),
        entry.1.unused_value && range_reaches_threshold(entry.1) ==> compact_len_spec(
            entry.0@.len() as int,
        ) + entry.0@.len() - range_len_spec(entry.1) + hash_len + 1 <= usize::MAX,
    ensures
        r == estimate_entry_size_spec(entry.0@, entry.1, hash_len as int),
{
    let mut full_encoded = scale_encoded_size(&entry.0);
    if entry.1.unused_value {
        if let Some((start, end)) = entry.1.range {
            let value_size = end - start;
            if value_size >= INNER_HASH_TRESHOLD {
                proof {
                    assert(range_reaches_threshold(entry.1));
                }
                full_encoded = full_encoded - value_size;
                full_encoded = full_encoded + hash_len;
                full_encoded = full_encoded + 1;
            }
        }
    }
    full_encoded
}

} // verus!
