use hash_db::Hasher;
use keccak_hasher::KeccakHasher;
use parity_scale_codec::{Compact, Encode};

use sp_trie::compact::{encode_index, estimate_entry_size};
use sp_trie::delta::{
    child_delta_apply_order, decode_child_root, delta_apply_order, empty_child_trie_root,
    empty_trie_root,
};
use sp_trie::keyspace::KeySpacedDB;
use sp_trie::meta::TrieMeta;
use sp_trie::store::new_memory_db;

type Entry = (Vec<u8>, Option<Vec<u8>>);

#[test]
fn delta_order_is_independent_of_enumeration_order() {
    let forward: Vec<Entry> = vec![
        (vec![0x01, 0x02], Some(vec![0x01])),
        (vec![0x02, 0x03], Some(vec![0x04, 0x05])),
    ];
    let backward: Vec<Entry> = vec![
        (vec![0x02, 0x03], Some(vec![0x04, 0x05])),
        (vec![0x01, 0x02], Some(vec![0x01])),
    ];
    let a = delta_apply_order(forward);
    let b = delta_apply_order(backward);
    assert_eq!(a, b);
    assert_eq!(
        a,
        vec![
            (vec![0x01, 0x02], Some(vec![0x01])),
            (vec![0x02, 0x03], Some(vec![0x04, 0x05])),
        ]
    );
}

#[test]
fn removals_sort_with_the_insertions() {
    let batch: Vec<Entry> = vec![
        (vec![9], None),
        (vec![1, 0], Some(vec![7])),
        (vec![1], None),
        (vec![], Some(vec![2])),
    ];
    let ordered = delta_apply_order(batch);
    assert_eq!(
        ordered,
        vec![
            (vec![], Some(vec![2])),
            (vec![1], None),
            (vec![1, 0], Some(vec![7])),
            (vec![9], None),
        ]
    );
}

#[test]
fn entries_of_one_key_keep_their_relative_order() {
    let batch: Vec<Entry> = vec![
        (vec![5], Some(vec![1])),
        (vec![3], None),
        (vec![5], Some(vec![2])),
    ];
    let ordered = delta_apply_order(batch);
    assert_eq!(
        ordered,
        vec![
            (vec![3], None),
            (vec![5], Some(vec![1])),
            (vec![5], Some(vec![2])),
        ]
    );
}

#[test]
fn ordering_matches_the_standard_byte_order() {
    let batch: Vec<Entry> = vec![
        (vec![2, 2], Some(vec![1])),
        (vec![2], None),
        (vec![], Some(vec![9])),
        (vec![0, 0, 0], Some(vec![3])),
        (vec![255], None),
        (vec![2, 1, 7], Some(vec![4])),
    ];
    let mut expected = batch.clone();
    expected.sort_by(|l, r| l.0.cmp(&r.0));
    assert_eq!(delta_apply_order(batch), expected);
}

#[test]
fn empty_delta_yields_no_commands() {
    let ordered = delta_apply_order(Vec::new());
    assert!(ordered.is_empty());
}

#[test]
fn empty_trie_root_is_stable_over_an_empty_delta() {
    let root = empty_trie_root();
    assert_eq!(root, KeccakHasher::hash(&[0]));
    assert_eq!(empty_child_trie_root(), root);

    // A fresh store already holds the canonical empty node under that root.
    let db = new_memory_db();
    let view = KeySpacedDB::new(&[]);
    assert_eq!(view.get(&db, &root, &[], None), Some(vec![0]));

    // An empty batch issues no commands, so the root stays the canonical one.
    assert!(delta_apply_order(Vec::new()).is_empty());
}

#[test]
fn child_root_is_decoded_from_its_fixed_width_form() {
    let raw: Vec<u8> = (0..32).collect();
    let root = decode_child_root(&raw);
    assert_eq!(root.to_vec(), raw);
}

#[test]
fn child_delta_recomputation_is_set_up_under_the_childs_tag() {
    let raw = [7u8; 32];
    let batch: Vec<Entry> = vec![
        (vec![2], Some(vec![8])),
        (vec![1], Some(vec![9])),
    ];
    let (root, view, ordered) = child_delta_apply_order(&[0xc0, 0xde], &raw, batch);
    assert_eq!(root, raw);
    assert_eq!(view.keyspace, vec![0xc0, 0xde]);
    assert_eq!(
        ordered,
        vec![(vec![1], Some(vec![9])), (vec![2], Some(vec![8]))]
    );
}

#[test]
fn encode_index_matches_the_wire_codec() {
    for v in [0u32, 1, 63, 64, 16383, 16384, 0x3fff_ffff, 0x4000_0000, u32::MAX] {
        assert_eq!(encode_index(v), Compact(v).encode());
    }
}

#[test]
fn encode_index_exact_bytes() {
    assert_eq!(encode_index(0), vec![0x00]);
    assert_eq!(encode_index(1), vec![0x04]);
    assert_eq!(encode_index(63), vec![0xfc]);
    assert_eq!(encode_index(64), vec![0x01, 0x01]);
    assert_eq!(encode_index(16384), vec![0x02, 0x00, 0x01, 0x00]);
    assert_eq!(encode_index(u32::MAX), vec![0x03, 0xff, 0xff, 0xff, 0xff]);
}

#[test]
fn estimated_size_counts_the_substitution() {
    let value = vec![1u8; 40];

    // Not a substitution candidate: the encoded size as it stands, one
    // compact length byte plus the bytes.
    let entry = (value.clone(), TrieMeta::meta_for_empty());
    assert_eq!(estimate_entry_size(&entry, 32), 41);

    // A candidate trades its range for one digest and one marker byte.
    let meta = TrieMeta {
        range: Some((0, 33)),
        unused_value: true,
        ..TrieMeta::meta_for_empty()
    };
    assert_eq!(estimate_entry_size(&(value.clone(), meta), 32), 41 - 33 + 32 + 1);

    // A range under the threshold changes nothing.
    let meta = TrieMeta {
        range: Some((0, 32)),
        unused_value: true,
        ..TrieMeta::meta_for_empty()
    };
    assert_eq!(estimate_entry_size(&(value, meta), 32), 41);
}
