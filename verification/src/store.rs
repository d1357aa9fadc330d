//! The backing node store: an outside reference-counted in-memory store,
//! keyed by content digest and disambiguated by a caller-supplied prefix.
//! Its contents are named and each operation the library relies on is given
//! the contract its source shows, so that the keyspace wrapper above it can
//! be verified.

use vstd::prelude::*;

use hash_db::HashDB;
use keccak_hasher::KeccakHasher;
use memory_db::{MemoryDB, PrefixedKey};
use std::collections::hash_map::RandomState;

use crate::digest::digest_of;

verus! {

/// The concrete backing store: an outside reference-counted in-memory node
/// store keyed by content digest, with the prefix folded into the underlying
/// map key so that distinct prefixes never collide.
#[verifier::external_body]
pub struct PrefixedMemoryDB {
    db: MemoryDB<KeccakHasher, PrefixedKey<KeccakHasher>, Vec<u8>, RandomState>,
}

/// What the store holds: for each derived key (prefix bytes, then the
/// optional padded prefix byte, then the digest) the stored bytes and their
/// reference count. An entry is live while its count is positive.
pub uninterp spec fn store_contents(db: PrefixedMemoryDB) -> Map<Seq<u8>, (Seq<u8>, int)>;

/// The store's reserved null node: its digest and its data. Lookups of the
/// null digest short-circuit and never touch the contents.
pub uninterp spec fn store_null(db: PrefixedMemoryDB) -> (Seq<u8>, Seq<u8>);

/// The map key under which the store files an entry: prefix bytes, then the
/// optional padded prefix byte, then the digest.
pub open spec fn prefixed_key_spec(prefix_main: Seq<u8>, prefix_aux: Option<u8>, hash: Seq<u8>) -> Seq<u8> {
    prefix_main + (match prefix_aux {
        Some(b) => seq![b],
        None => Seq::empty(),
    }) + hash
}

/// What a lookup returns: the null node's data for the null digest, else the
/// entry filed under the derived key while its reference count is positive.
pub open spec fn store_get_spec(
    contents: Map<Seq<u8>, (Seq<u8>, int)>,
    null: (Seq<u8>, Seq<u8>),
    key: Seq<u8>,
    prefix_main: Seq<u8>,
    prefix_aux: Option<u8>,
) -> Option<Seq<u8>> {
    if key == null.0 {
        Some(null.1)
    } else {
        let pk = prefixed_key_spec(prefix_main, prefix_aux, key);
        if contents.dom().contains(pk) && contents[pk].1 > 0 {
            Some(contents[pk].0)
        } else {
            None
        }
    }
}

/// The contents after filing `value` under `key`: a no-op for the null
/// node's data; otherwise the derived key's count rises by one, and the
/// bytes are replaced only when the old count was not positive.
pub open spec fn store_emplace_spec(
    contents: Map<Seq<u8>, (Seq<u8>, int)>,
    null: (Seq<u8>, Seq<u8>),
    key: Seq<u8>,
    prefix_main: Seq<u8>,
    prefix_aux: Option<u8>,
    value: Seq<u8>,
) -> Map<Seq<u8>, (Seq<u8>, int)> {
    if value == null.1 {
        contents
    } else {
        let pk = prefixed_key_spec(prefix_main, prefix_aux, key);
        if contents.dom().contains(pk) {
            let (old_value, count) = contents[pk];
            contents.insert(
                pk,
                (
                    if count <= 0 {
                        value
                    } else {
                        old_value
                    },
                    count + 1,
                ),
            )
        } else {
            contents.insert(pk, (value, 1))
        }
    }
}

/// The contents after an insertion, which files the value under its own
/// digest.
pub open spec fn store_insert_spec(
    contents: Map<Seq<u8>, (Seq<u8>, int)>,
    null: (Seq<u8>, Seq<u8>),
    prefix_main: Seq<u8>,
    prefix_aux: Option<u8>,
    value: Seq<u8>,
) -> Map<Seq<u8>, (Seq<u8>, int)> {
    store_emplace_spec(contents, null, digest_of(value), prefix_main, prefix_aux, value)
}

/// The digest an insertion reports: the null digest for the null node's
/// data, else the value's own digest.
pub open spec fn store_insert_key_spec(null: (Seq<u8>, Seq<u8>), value: Seq<u8>) -> Seq<u8> {
    if value == null.1 {
        null.0
    } else {
        digest_of(value)
    }
}

/// The contents after a removal: a no-op for the null digest; otherwise the
/// derived key's count falls by one, a missing entry being recorded as an
/// owed insertion with empty bytes.
pub open spec fn store_remove_spec(
    contents: Map<Seq<u8>, (Seq<u8>, int)>,
    null: (Seq<u8>, Seq<u8>),
    key: Seq<u8>,
    prefix_main: Seq<u8>,
    prefix_aux: Option<u8>,
) -> Map<Seq<u8>, (Seq<u8>, int)> {
    if key == null.0 {
        contents
    } else {
        let pk = prefixed_key_spec(prefix_main, prefix_aux, key);
        if contents.dom().contains(pk) {
            contents.insert(pk, (contents[pk].0, contents[pk].1 - 1))
        } else {
            contents.insert(pk, (Seq::empty(), -1))
        }
    }
}

/// Every reference count has room to rise by one.
pub open spec fn store_counts_below_max(contents: Map<Seq<u8>, (Seq<u8>, int)>) -> bool {
    forall|k: Seq<u8>| #[trigger] contents.dom().contains(k) ==> contents[k].1 < 0x7fff_ffff
}

/// Every reference count has room to fall by one.
pub open spec fn store_counts_above_min(contents: Map<Seq<u8>, (Seq<u8>, int)>) -> bool {
    forall|k: Seq<u8>| #[trigger] contents.dom().contains(k) ==> contents[k].1 > -0x8000_0000
}

/// The reserved null node of a freshly built store: the one-zero-byte
/// payload, addressed by that payload's digest.
pub open spec fn null_node_model() -> (Seq<u8>, Seq<u8>) {
    (digest_of(seq![0u8]), seq![0u8])
}

/// What a freshly built store holds: nothing.
pub open spec fn empty_store_model() -> Map<Seq<u8>, (Seq<u8>, int)> {
    Map::empty()
}

/// Relies on `memory_db::MemoryDB::default`: a fresh store holds nothing,
/// and its reserved null node is the one-zero-byte payload under that
/// payload's digest.
#[verifier::external_body]
pub fn new_memory_db() -> (db: PrefixedMemoryDB)
    ensures
        store_contents(db) == empty_store_model(),
        store_null(db) == null_node_model(),
{
    PrefixedMemoryDB { db: MemoryDB::default() }
}

/// Relies on `memory_db::MemoryDB::get` (through `hash_db::HashDB`): the
/// null node short-circuits, any other digest is looked up under the
/// derived key and returned while its reference count is positive.
#[verifier::external_body]
pub(crate) fn mdb_get(
    db: &PrefixedMemoryDB,
    key: &[u8; 32],
    prefix_main: &[u8],
    prefix_aux: Option<u8>,
) -> (r: Option<Vec<u8>>)
    ensures
        (match r {
            Some(v) => store_get_spec(
                store_contents(*db),
                store_null(*db),
                key@,
                prefix_main@,
                prefix_aux,
            ) == Some(v@),
            None => store_get_spec(
                store_contents(*db),
                store_null(*db),
                key@,
                prefix_main@,
                prefix_aux,
            ) is None,
        }),
{
    HashDB::get(&db.db, key, (prefix_main, prefix_aux))
}

/// Relies on `memory_db::MemoryDB::contains` (through `hash_db::HashDB`):
/// true exactly where a lookup would return bytes.
#[verifier::external_body]
pub(crate) fn mdb_contains(
    db: &PrefixedMemoryDB,
    key: &[u8; 32],
    prefix_main: &[u8],
    prefix_aux: Option<u8>,
) -> (r: bool)
    ensures
        r == store_get_spec(
            store_contents(*db),
            store_null(*db),
            key@,
            prefix_main@,
            prefix_aux,
        ) is Some,
{
    HashDB::contains(&db.db, key, (prefix_main, prefix_aux))
}

/// Relies on `memory_db::MemoryDB::insert` (through `hash_db::HashDB`): the
/// value is filed under its own digest and that digest is returned, the
/// null node's data being reported as the null digest without a write.
#[verifier::external_body]
pub(crate) fn mdb_insert(
    db: &mut PrefixedMemoryDB,
    prefix_main: &[u8],
    prefix_aux: Option<u8>,
    value: &[u8],
) -> (r: [u8; 32])
    requires
        store_counts_below_max(store_contents(*old(db))),
    ensures
        r@ == store_insert_key_spec(store_null(*old(db)), value@),
        store_contents(*final(db)) == store_insert_spec(
            store_contents(*old(db)),
            store_null(*old(db)),
            prefix_main@,
            prefix_aux,
            value@,
        ),
        store_null(*final(db)) == store_null(*old(db)),
{
    HashDB::insert(&mut db.db, (prefix_main, prefix_aux), value)
}

/// Relies on `memory_db::MemoryDB::emplace` (through `hash_db::HashDB`):
/// the value is filed under the caller's digest, the null node's data being
/// ignored.
#[verifier::external_body]
pub(crate) fn mdb_emplace(
    db: &mut PrefixedMemoryDB,
    key: [u8; 32],
    prefix_main: &[u8],
    prefix_aux: Option<u8>,
    value: Vec<u8>,
)
    requires
        store_counts_below_max(store_contents(*old(db))),
    ensures
        store_contents(*final(db)) == store_emplace_spec(
            store_contents(*old(db)),
            store_null(*old(db)),
            key@,
            prefix_main@,
            prefix_aux,
            value@,
        ),
        store_null(*final(db)) == store_null(*old(db)),
{
    HashDB::emplace(&mut db.db, key, (prefix_main, prefix_aux), value)
}

/// Relies on `memory_db::MemoryDB::remove` (through `hash_db::HashDB`): one
/// reference under the derived key is given back, the null digest being
/// ignored.
#[verifier::external_body]
pub(crate) fn mdb_remove(
    db: &mut PrefixedMemoryDB,
    key: &[u8; 32],
    prefix_main: &[u8],
    prefix_aux: Option<u8>,
)
    requires
        store_counts_above_min(store_contents(*old(db))),
    ensures
        store_contents(*final(db)) == store_remove_spec(
            store_contents(*old(db)),
            store_null(*old(db)),
            key@,
            prefix_main@,
            prefix_aux,
        ),
        store_null(*final(db)) == store_null(*old(db)),
{
    HashDB::remove(&mut db.db, key, (prefix_main, prefix_aux))
}

} // verus!
