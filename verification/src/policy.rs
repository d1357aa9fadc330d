//! The two interchangeable value-hashing policies that the external store
//! consults when a node's value is persisted or read: the size-threshold
//! policy, which may replace a long value range by its digest, and the
//! pass-through policy, which never touches the bytes.

use vstd::prelude::*;

use crate::digest::{digest_of, hash_bytes};
use crate::inner_hash::{inner_hashed_spec, inner_hashed_value, push_bytes};
use crate::meta::{empty_meta, has_policy_marker, read_policy_marker_spec, TrieMeta};
use crate::trie_constants::{DEAD_HEADER_META_HASHED_VALUE, INNER_HASH_TRESHOLD, OLD_HASHING};

verus! {

/// Size-threshold policy: values whose recorded range reaches the threshold
/// are candidates for hash substitution, under the rules below.
#[derive(Clone, Copy, PartialEq, Eq, Debug)]
pub struct StateHasher;

/// Pass-through policy: the digest is always taken over the raw bytes and
/// the stored representation is the raw bytes unchanged.
#[derive(Clone, Copy, PartialEq, Eq, Debug)]
pub struct NoMetaHasher;

/// Whether the record's byte range is present and at least as long as the
/// inner-hash threshold.
pub open spec fn range_reaches_threshold(m: TrieMeta) -> bool {
    match m.range {
        Some((start, end)) => end - start >= INNER_HASH_TRESHOLD,
        None => false,
    }
}

/// Whether the digest of a value is taken over its inner-hashed transform
/// rather than over the raw bytes: only for a plain (non-substituted,
/// non-legacy) value with hashing active and a range at the threshold.
pub open spec fn applies_inner_hash(m: TrieMeta) -> bool {
    &&& m.range is Some
    &&& !m.contain_hash
    &&& !m.old_hash
    &&& m.do_value_hash
    &&& range_reaches_threshold(m)
}

/// The digest the size-threshold policy assigns to a value.
pub open spec fn state_hash_spec(value: Seq<u8>, m: TrieMeta) -> Seq<u8> {
    if applies_inner_hash(m) {
        digest_of(inner_hashed_spec(value, m.range))
    } else {
        digest_of(value)
    }
}

/// The on-disk byte sequence the size-threshold policy stores for a value,
/// first matching rule wins:
/// 1. a legacy-format value keeps its bytes, behind the legacy marker;
/// 2. a value at the threshold written while hashing is inactive is degraded
///    to the legacy form, so that a later read under an active-hashing
///    configuration cannot mistake it for a live substituted value;
/// 3. a value that already is a digest keeps its bytes, behind the
///    stored-hash marker;
/// 4. an unaccessed value at the threshold is hash-substituted over its
///    range, behind the stored-hash marker;
/// 5. anything else keeps its bytes, with no marker.
pub open spec fn stored_value_spec(value: Seq<u8>, m: TrieMeta) -> Seq<u8> {
    if m.old_hash {
        seq![OLD_HASHING] + value
    } else if !m.do_value_hash && range_reaches_threshold(m) {
        seq![OLD_HASHING] + value
    } else if m.contain_hash {
        seq![DEAD_HEADER_META_HASHED_VALUE] + value
    } else if m.unused_value && range_reaches_threshold(m) {
        seq![DEAD_HEADER_META_HASHED_VALUE] + inner_hashed_spec(value, m.range)
    } else {
        value
    }
}

/// Whether a stored payload begins with the stored-hash marker.
pub open spec fn has_dead_marker(stored: Seq<u8>) -> bool {
    stored.len() > 0 && stored[0] == DEAD_HEADER_META_HASHED_VALUE
}

/// Whether a payload (after the optional stored-hash marker) begins with the
/// legacy marker.
pub open spec fn has_old_marker(stored: Seq<u8>) -> bool {
    stored.len() > 0 && stored[0] == OLD_HASHING
}

/// The payload after stripping, in this fixed order, an optional stored-hash
/// marker and then an optional legacy marker. The policy-active marker, when
/// present, stays in place: the node decoder consumes it later.
pub open spec fn extracted_bytes_spec(stored: Seq<u8>) -> Seq<u8> {
    let after_dead = if has_dead_marker(stored) {
        stored.drop_first()
    } else {
        stored
    };
    if has_old_marker(after_dead) {
        after_dead.drop_first()
    } else {
        after_dead
    }
}

/// The record reconstructed while reading a stored payload: the two leading
/// markers set `contain_hash` and `old_hash`, the policy marker of the
/// remaining bytes sets the recorded policy flag, and hashing is active when
/// either this node records it or the parent already had it active.
pub open spec fn extracted_meta_spec(stored: Seq<u8>, parent: Option<TrieMeta>) -> TrieMeta {
    let contain_hash = has_dead_marker(stored);
    let after_dead = if contain_hash {
        stored.drop_first()
    } else {
        stored
    };
    let old_hash = has_old_marker(after_dead);
    let rest = extracted_bytes_spec(stored);
    let recorded = has_policy_marker(rest);
    TrieMeta {
        range: None,
        recorded_do_value_hash: recorded,
        contain_hash,
        do_value_hash: recorded || (match parent {
            Some(p) => p.do_value_hash,
            None => false,
        }),
        unused_value: contain_hash,
        old_hash,
    }
}

impl StateHasher {
    /// The digest assigned to a value: over the inner-hashed transform when
    /// the record says a plain value with an at-threshold range is being
    /// written under an active hashing policy, else over the raw bytes.
    pub fn hash(value: &[u8], meta: &TrieMeta) -> (r: [u8; 32])
        requires
            (meta.range matches Some((start, end)) ==> start <= end),
        ensures
            r@ == state_hash_spec(value@, *meta),
    {
        match meta.range {
            Some((start, end)) => {
                if !meta.contain_hash && !meta.old_hash && meta.do_value_hash && end - start
                    >= INNER_HASH_TRESHOLD {
                    let inner = inner_hashed_value(value, Some((start, end)));
                    hash_bytes(inner.as_slice())
                } else {
                    hash_bytes(value)
                }
            },
            None => hash_bytes(value),
        }
    }

    /// The on-disk byte sequence stored for a value, by the five rules of
    /// [`stored_value_spec`].
    pub fn stored_value(value: &[u8], meta: TrieMeta) -> (stored: Vec<u8>)
        requires
            (meta.range matches Some((start, end)) ==> start <= end),
        ensures
            stored@ == stored_value_spec(value@, meta),
    {
        let mut stored: Vec<u8> = Vec::new();
        if meta.old_hash {
            stored.push(OLD_HASHING);
            push_bytes(&mut stored, value);
            return stored;
        }
        if !meta.do_value_hash {
            if let Some((start, end)) = meta.range {
                if end - start >= INNER_HASH_TRESHOLD {
                    stored.push(OLD_HASHING);
                    push_bytes(&mut stored, value);
                    return stored;
                }
            }
        }
        if meta.contain_hash {
            stored.push(DEAD_HEADER_META_HASHED_VALUE);
            push_bytes(&mut stored, value);
            return stored;
        }
        if meta.unused_value {
            if let Some((start, end)) = meta.range {
                if end - start >= INNER_HASH_TRESHOLD {
                    stored.push(DEAD_HEADER_META_HASHED_VALUE);
                    let inner = inner_hashed_value(value, Some((start, end)));
                    push_bytes(&mut stored, inner.as_slice());
                    return stored;
                }
            }
        }
        push_bytes(&mut stored, value);
        stored
    }

    /// As [`StateHasher::stored_value`], taking the value by ownership.
    pub fn stored_value_owned(value: Vec<u8>, meta: TrieMeta) -> (stored: Vec<u8>)
        requires
            (meta.range matches Some((start, end)) ==> start <= end),
        ensures
            stored@ == stored_value_spec(value@, meta),
    {
        Self::stored_value(value.as_slice(), meta)
    }

    /// Splits a stored payload into the remaining bytes and the
    /// reconstructed record, stripping at most one stored-hash marker and
    /// then at most one legacy marker, and inheriting the active-hashing
    /// flag from the parent record.
    pub fn extract_value(stored: &[u8], parent_meta: Option<&TrieMeta>) -> (r: (Vec<u8>, TrieMeta))
        ensures
            r.0@ == extracted_bytes_spec(stored@),
            r.1 == extracted_meta_spec(
                stored@,
                (match parent_meta {
                    Some(p) => Some(*p),
                    None => None,
                }),
            ),
    {
        let mut offset: usize = 0;
        let mut contain_hash = false;
        if stored.len() > 0 && stored[0] == DEAD_HEADER_META_HASHED_VALUE {
            contain_hash = true;
            offset = 1;
        }
        let mut old_hash = false;
        if stored.len() > offset && stored[offset] == OLD_HASHING {
            old_hash = true;
            offset = offset + 1;
        }
        let rest = vstd::slice::slice_subrange(stored, offset, stored.len());
        proof {
            if contain_hash {
                assert(stored@.drop_first() =~= stored@.skip(1));
                if old_hash {
                    assert(stored@.drop_first().drop_first() =~= stored@.skip(2));
                }
            } else {
                if old_hash {
                    assert(stored@.drop_first() =~= stored@.skip(1));
                }
                assert(stored@.skip(0) =~= stored@);
            }
        }
        let mut meta = TrieMeta {
            range: None,
            recorded_do_value_hash: false,
            contain_hash,
            do_value_hash: false,
            unused_value: contain_hash,
            old_hash,
        };
        let _consumed = meta.read_state_meta(rest);
        let parent_active = match parent_meta {
            Some(p) => p.do_value_hash,
            None => false,
        };
        meta.do_value_hash = meta.recorded_do_value_hash || parent_active;
        (vstd::slice::slice_to_vec(rest), meta)
    }

    /// As [`StateHasher::extract_value`], taking the payload by ownership.
    pub fn extract_value_owned(stored: Vec<u8>, parent_meta: Option<&TrieMeta>) -> (r: (
        Vec<u8>,
        TrieMeta,
    ))
        ensures
            r.0@ == extracted_bytes_spec(stored@),
            r.1 == extracted_meta_spec(
                stored@,
                (match parent_meta {
                    Some(p) => Some(*p),
                    None => None,
                }),
            ),
    {
        Self::extract_value(stored.as_slice(), parent_meta)
    }
}

impl NoMetaHasher {
    /// The digest of the raw bytes, unconditionally.
    pub fn hash(value: &[u8], _meta: &TrieMeta) -> (r: [u8; 32])
        ensures
            r@ == digest_of(value@),
    {
        hash_bytes(value)
    }

    /// The raw bytes, unchanged.
    pub fn stored_value(value: &[u8], _meta: TrieMeta) -> (stored: Vec<u8>)
        ensures
            stored@ == value@,
    {
        vstd::slice::slice_to_vec(value)
    }

    /// The raw bytes, unchanged.
    pub fn stored_value_owned(value: Vec<u8>, _meta: TrieMeta) -> (stored: Vec<u8>)
        ensures
            stored@ == value@,
    {
        value
    }

    /// The raw bytes and an all-default record.
    pub fn extract_value(stored: &[u8], _parent_meta: Option<&TrieMeta>) -> (r: (Vec<u8>, TrieMeta))
        ensures
            r.0@ == stored@,
            r.1 == empty_meta(),
    {
        (vstd::slice::slice_to_vec(stored), TrieMeta::meta_for_empty())
    }

    /// The raw bytes and an all-default record.
    pub fn extract_value_owned(stored: Vec<u8>, _parent_meta: Option<&TrieMeta>) -> (r: (
        Vec<u8>,
        TrieMeta,
    ))
        ensures
            r.0@ == stored@,
            r.1 == empty_meta(),
    {
        (stored, TrieMeta::meta_for_empty())
    }
}

/// Threshold boundary: a value whose recorded range is one byte under the
/// threshold is never hash-substituted, whatever the rest of the record
/// says; a value exactly at the threshold, unaccessed, plain and written
/// with hashing active, is hash-substituted over its range.
pub proof fn lemma_threshold_boundary(value: Seq<u8>, m: TrieMeta, start: usize, end: usize)
    requires
        m.range == Some((start, end)),
        start <= end,
    ensures
        end - start < INNER_HASH_TRESHOLD ==> stored_value_spec(value, m) == (if m.old_hash {
            seq![OLD_HASHING] + value
        } else if m.contain_hash {
            seq![DEAD_HEADER_META_HASHED_VALUE] + value
        } else {
            value
        }),
        (end - start == INNER_HASH_TRESHOLD && m.unused_value && m.do_value_hash && !m.old_hash
            && !m.contain_hash) ==> stored_value_spec(value, m) == seq![
            DEAD_HEADER_META_HASHED_VALUE,
        ] + inner_hashed_spec(value, Some((start, end))),
{
}

/// Legacy migration: a value at the threshold first stored while hashing is
/// inactive (and not already in legacy form) is prefixed with the legacy
/// marker; a later write performed with hashing active clears the legacy
/// flag when the encoder reports the value's placement.
pub proof fn lemma_legacy_migration(value: Seq<u8>, m: TrieMeta, m2: TrieMeta, plan: crate::meta::ValuePlan)
    requires
        !m.do_value_hash,
        !m.old_hash,
        range_reaches_threshold(m),
        m2.do_value_hash,
        !(plan is NoValue),
    ensures
        stored_value_spec(value, m) == seq![OLD_HASHING] + value,
        !crate::meta::encoded_value_spec(m2, plan).old_hash,
{
}

} // verus!
