use hash_db::Hasher;
use keccak_hasher::KeccakHasher;

use sp_trie::keyspace::{keyspace_as_prefix_alloc, KeySpacedDB, KeySpacedDBMut};
use sp_trie::store::new_memory_db;

#[test]
fn prefix_derivation_prepends_the_tag() {
    let (main, aux) = keyspace_as_prefix_alloc(&[1, 2], &[3, 4], Some(5));
    assert_eq!(main, vec![1, 2, 3, 4]);
    assert_eq!(aux, Some(5));

    let (main, aux) = keyspace_as_prefix_alloc(&[], &[9], None);
    assert_eq!(main, vec![9]);
    assert_eq!(aux, None);
}

#[test]
fn insert_files_a_value_under_its_digest() {
    let mut db = new_memory_db();
    let view = KeySpacedDBMut::new(&[7, 7]);
    let value = vec![42u8; 40];
    let key = view.insert(&mut db, &[], None, &value);
    assert_eq!(key, KeccakHasher::hash(&value));
    assert_eq!(view.get(&db, &key, &[], None), Some(value.clone()));
    assert!(view.contains(&db, &key, &[], None));

    let reader = KeySpacedDB::new(&[7, 7]);
    assert_eq!(reader.get(&db, &key, &[], None), Some(value));
    assert!(reader.contains(&db, &key, &[], None));
}

#[test]
fn keyspaces_are_isolated() {
    let mut db = new_memory_db();
    let writer = KeySpacedDBMut::new(&[1, 1]);
    let value = vec![3u8; 40];
    let key = writer.insert(&mut db, &[], None, &value);

    // The same key under a different tag of the same length sees nothing.
    let other = KeySpacedDB::new(&[2, 2]);
    assert_eq!(other.get(&db, &key, &[], None), None);
    assert!(!other.contains(&db, &key, &[], None));

    // The writing tag still sees its entry.
    let own = KeySpacedDB::new(&[1, 1]);
    assert_eq!(own.get(&db, &key, &[], None), Some(value));
}

#[test]
fn prefixes_keep_entries_apart_inside_one_keyspace() {
    let mut db = new_memory_db();
    let view = KeySpacedDBMut::new(&[5]);
    let value = vec![9u8; 36];
    let key = view.insert(&mut db, &[10], Some(1), &value);
    assert_eq!(view.get(&db, &key, &[10], Some(1)), Some(value));
    assert_eq!(view.get(&db, &key, &[10], None), None);
    assert_eq!(view.get(&db, &key, &[11], Some(1)), None);
}

#[test]
fn references_are_counted() {
    let mut db = new_memory_db();
    let view = KeySpacedDBMut::new(&[4]);
    let value = vec![8u8; 35];
    let key = view.insert(&mut db, &[], None, &value);
    view.insert(&mut db, &[], None, &value);

    view.remove(&mut db, &key, &[], None);
    assert_eq!(view.get(&db, &key, &[], None), Some(value));

    view.remove(&mut db, &key, &[], None);
    assert_eq!(view.get(&db, &key, &[], None), None);
}

#[test]
fn emplace_files_a_value_under_the_callers_key() {
    let mut db = new_memory_db();
    let view = KeySpacedDBMut::new(&[6]);
    let key = [0xabu8; 32];
    let value = vec![1, 2, 3];
    view.emplace(&mut db, key, &[], None, value.clone());
    assert_eq!(view.get(&db, &key, &[], None), Some(value));
}

#[test]
fn the_null_node_is_visible_under_every_keyspace() {
    let mut db = new_memory_db();
    let writer = KeySpacedDBMut::new(&[1]);
    let null_key = writer.insert(&mut db, &[], None, &[0]);
    assert_eq!(null_key, KeccakHasher::hash(&[0]));
    let other = KeySpacedDB::new(&[2]);
    assert_eq!(other.get(&db, &null_key, &[], None), Some(vec![0]));
    assert!(other.contains(&db, &null_key, &[], None));
}
