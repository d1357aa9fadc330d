use hash_db::Hasher;
use keccak_hasher::KeccakHasher;

use sp_trie::inner_hash::inner_hashed_value;
use sp_trie::meta::{TrieMeta, ValuePlan};
use sp_trie::policy::{NoMetaHasher, StateHasher};
use sp_trie::trie_constants::{DEAD_HEADER_META_HASHED_VALUE, OLD_HASHING};

fn keccak(b: &[u8]) -> [u8; 32] {
    KeccakHasher::hash(b)
}

fn fresh() -> TrieMeta {
    TrieMeta::meta_for_empty()
}

fn sample(len: usize) -> Vec<u8> {
    (0..len).map(|i| (i % 251) as u8).collect()
}

// Keccak-256 of the empty input, a published fixed vector: the digest
// wrapper must produce the real hash, not echo its input.
const KECCAK_EMPTY: [u8; 32] = [
    0xc5, 0xd2, 0x46, 0x01, 0x86, 0xf7, 0x23, 0x3c, 0x92, 0x7e, 0x7d, 0xb2, 0xdc, 0xc7, 0x03,
    0xc0, 0xe5, 0x00, 0xb6, 0x53, 0xca, 0x82, 0x27, 0x3b, 0x7b, 0xfa, 0xd8, 0x04, 0x5d, 0x85,
    0xa4, 0x70,
];

#[test]
fn terminal_inner_hash_replaces_the_tail() {
    let x = sample(40);
    let out = inner_hashed_value(&x, Some((8, 40)));
    let mut expected = x[..8].to_vec();
    expected.extend_from_slice(&keccak(&x[8..]));
    assert_eq!(out, expected);
    assert_eq!(out.len(), 40 - 32 + 32);
}

#[test]
fn initial_inner_hash_splices_the_empty_prefix_digest() {
    let x = sample(40);
    let out = inner_hashed_value(&x, Some((0, 10)));
    // The digest spliced in front is the digest of `x[0..0]`, by
    // construction of the range.
    let mut expected = keccak(&[]).to_vec();
    expected.extend_from_slice(&x[10..]);
    assert_eq!(out, expected);
    assert_eq!(&out[..32], &KECCAK_EMPTY);
    assert_eq!(out.len(), 40 - 10 + 32);
}

#[test]
fn middle_inner_hash_keeps_both_sides() {
    let x = sample(40);
    let out = inner_hashed_value(&x, Some((8, 20)));
    let mut expected = x[..8].to_vec();
    expected.extend_from_slice(&keccak(&x[8..20]));
    expected.extend_from_slice(&x[20..]);
    assert_eq!(out, expected);
    assert_eq!(out.len(), 40 - 12 + 32);
}

#[test]
fn out_of_bounds_range_is_left_unchanged() {
    let x = sample(40);
    assert_eq!(inner_hashed_value(&x, Some((10, 50))), x);
    assert_eq!(inner_hashed_value(&x, Some((40, 40))), x);
    assert_eq!(inner_hashed_value(&x, None), x);
}

#[test]
fn state_hash_is_plain_without_a_range() {
    let value = sample(64);
    let r = StateHasher::hash(&value, &fresh());
    assert_eq!(r, keccak(&value));
}

#[test]
fn state_hash_goes_through_the_inner_transform() {
    let value = sample(64);
    let meta = TrieMeta { range: Some((0, 64)), do_value_hash: true, ..fresh() };
    let r = StateHasher::hash(&value, &meta);
    assert_eq!(r, keccak(&inner_hashed_value(&value, Some((0, 64)))));
    assert_ne!(r, keccak(&value));

    // A range under the threshold hashes the raw bytes.
    let meta = TrieMeta { range: Some((0, 32)), do_value_hash: true, ..fresh() };
    assert_eq!(StateHasher::hash(&value, &meta), keccak(&value));

    // A value that already is a digest hashes as it stands.
    let meta = TrieMeta { range: Some((0, 64)), do_value_hash: true, contain_hash: true, ..fresh() };
    assert_eq!(StateHasher::hash(&value, &meta), keccak(&value));

    // A legacy-format value hashes as it stands.
    let meta = TrieMeta { range: Some((0, 64)), do_value_hash: true, old_hash: true, ..fresh() };
    assert_eq!(StateHasher::hash(&value, &meta), keccak(&value));
}

#[test]
fn stored_value_keeps_legacy_nodes_behind_the_legacy_marker() {
    let value = sample(40);
    let meta = TrieMeta { old_hash: true, ..fresh() };
    let mut expected = vec![OLD_HASHING];
    expected.extend_from_slice(&value);
    assert_eq!(StateHasher::stored_value(&value, meta), expected);
}

#[test]
fn stored_value_degrades_to_legacy_while_hashing_is_inactive() {
    let value = sample(40);
    let meta = TrieMeta { range: Some((0, 33)), unused_value: true, ..fresh() };
    let mut expected = vec![OLD_HASHING];
    expected.extend_from_slice(&value);
    assert_eq!(StateHasher::stored_value(&value, meta), expected);
}

#[test]
fn stored_value_flags_an_already_hashed_value() {
    let value = keccak(&sample(80)).to_vec();
    let meta = TrieMeta { contain_hash: true, do_value_hash: true, ..fresh() };
    let mut expected = vec![DEAD_HEADER_META_HASHED_VALUE];
    expected.extend_from_slice(&value);
    assert_eq!(StateHasher::stored_value(&value, meta), expected);
}

#[test]
fn threshold_boundary_thirty_two_is_never_substituted() {
    let value = sample(40);
    let meta = TrieMeta {
        range: Some((8, 40)),
        unused_value: true,
        do_value_hash: true,
        ..fresh()
    };
    // Range of exactly 32 bytes: the value is stored verbatim, no marker.
    assert_eq!(StateHasher::stored_value(&value, meta), value);
}

#[test]
fn threshold_boundary_thirty_three_is_substituted() {
    let value = sample(41);
    let meta = TrieMeta {
        range: Some((8, 41)),
        unused_value: true,
        do_value_hash: true,
        ..fresh()
    };
    let mut expected = vec![DEAD_HEADER_META_HASHED_VALUE];
    expected.extend_from_slice(&inner_hashed_value(&value, Some((8, 41))));
    assert_eq!(StateHasher::stored_value(&value, meta), expected);
}

#[test]
fn stored_value_plain_path_adds_no_marker() {
    let value = sample(10);
    let meta = TrieMeta { range: Some((0, 10)), do_value_hash: true, ..fresh() };
    assert_eq!(StateHasher::stored_value(&value, meta), value);
    assert_eq!(StateHasher::stored_value_owned(value.clone(), meta), value);
}

#[test]
fn extract_value_strips_the_markers_in_order() {
    let rest = sample(20);

    let mut stored = vec![DEAD_HEADER_META_HASHED_VALUE];
    stored.extend_from_slice(&rest);
    let (bytes, meta) = StateHasher::extract_value(&stored, None);
    assert_eq!(bytes, rest);
    assert!(meta.contain_hash);
    assert!(meta.unused_value);
    assert!(!meta.old_hash);

    let mut stored = vec![OLD_HASHING];
    stored.extend_from_slice(&rest);
    let (bytes, meta) = StateHasher::extract_value(&stored, None);
    assert_eq!(bytes, rest);
    assert!(!meta.contain_hash);
    assert!(meta.old_hash);

    let mut stored = vec![DEAD_HEADER_META_HASHED_VALUE, OLD_HASHING];
    stored.extend_from_slice(&rest);
    let (bytes, meta) = StateHasher::extract_value(&stored, None);
    assert_eq!(bytes, rest);
    assert!(meta.contain_hash);
    assert!(meta.old_hash);

    let (bytes, meta) = StateHasher::extract_value_owned(rest.clone(), None);
    assert_eq!(bytes, rest);
    assert!(!meta.contain_hash);
    assert!(!meta.old_hash);
}

#[test]
fn extract_value_reads_the_policy_marker_and_the_parent() {
    // The payload records the active policy; the marker byte stays in the
    // returned bytes, the node decoder consumes it later.
    let stored = vec![sp_trie::trie_constants::ENCODED_META_ALLOW_HASH, 0xaa];
    let (bytes, meta) = StateHasher::extract_value(&stored, None);
    assert_eq!(bytes, stored);
    assert!(meta.recorded_do_value_hash);
    assert!(meta.do_value_hash);

    // The policy is inherited downward from the parent.
    let parent = TrieMeta { do_value_hash: true, ..fresh() };
    let (_, meta) = StateHasher::extract_value(&[0xaa, 0xbb], Some(&parent));
    assert!(!meta.recorded_do_value_hash);
    assert!(meta.do_value_hash);

    let (_, meta) = StateHasher::extract_value(&[0xaa, 0xbb], Some(&fresh()));
    assert!(!meta.do_value_hash);
}

#[test]
fn legacy_value_migrates_forward_on_the_next_write() {
    let value = sample(40);

    // First stored while hashing is inactive: degraded to the legacy form.
    let meta = TrieMeta { range: Some((0, 40)), ..fresh() };
    let stored = StateHasher::stored_value(&value, meta);
    assert_eq!(stored[0], OLD_HASHING);

    // Read back: the record knows the node is in the legacy format.
    let active_parent = TrieMeta { do_value_hash: true, ..fresh() };
    let (bytes, mut reloaded) = StateHasher::extract_value(&stored, Some(&active_parent));
    assert_eq!(bytes, value);
    assert!(reloaded.old_hash);
    assert!(reloaded.do_value_hash);

    // The next write with hashing active migrates the node forward.
    reloaded.encoded_value_callback(ValuePlan::Value(0, 40));
    assert!(!reloaded.old_hash);
    let restored = StateHasher::stored_value(&value, reloaded);
    assert_ne!(restored[0], OLD_HASHING);
}

#[test]
fn pass_through_policy_touches_nothing() {
    let value = sample(80);
    let meta = TrieMeta { range: Some((0, 80)), unused_value: true, do_value_hash: true, ..fresh() };
    assert_eq!(NoMetaHasher::hash(&value, &meta), keccak(&value));
    assert_eq!(NoMetaHasher::stored_value(&value, meta), value);
    assert_eq!(NoMetaHasher::stored_value_owned(value.clone(), meta), value);
    let (bytes, m) = NoMetaHasher::extract_value(&value, Some(&meta));
    assert_eq!(bytes, value);
    assert_eq!(m, fresh());
    let (bytes, m) = NoMetaHasher::extract_value_owned(value.clone(), None);
    assert_eq!(bytes, value);
    assert_eq!(m, fresh());
}
