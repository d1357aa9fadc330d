//! Keyspace isolation: wrappers that let many independent tries share one
//! physical store by prepending a caller-supplied tag to the prefix of every
//! operation. Node digests are globally unique, so only the prefix needs the
//! tag; the key itself is passed through unchanged.

use vstd::prelude::*;

use crate::store::{
    mdb_contains, mdb_emplace, mdb_get, mdb_insert, mdb_remove, prefixed_key_spec,
    store_contents, store_counts_above_min, store_counts_below_max, store_emplace_spec,
    store_get_spec, store_insert_key_spec, store_insert_spec, store_null, store_remove_spec,
    PrefixedMemoryDB,
};

verus! {

/// The effective prefix handed to the backing store: the keyspace tag is
/// concatenated in front of the prefix bytes, and the auxiliary padded byte
/// is preserved unchanged.
pub fn keyspace_as_prefix_alloc(ks: &[u8], prefix_main: &[u8], prefix_aux: Option<u8>) -> (r: (
    Vec<u8>,
    Option<u8>,
))
    ensures
        r.0@ == ks@ + prefix_main@,
        r.1 == prefix_aux,
{
    let mut main: Vec<u8> = Vec::new();
    crate::inner_hash::push_bytes(&mut main, ks);
    crate::inner_hash::push_bytes(&mut main, prefix_main);
    (main, prefix_aux)
}

/// Read-only view of a backing store under a keyspace tag: every lookup
/// derives its effective prefix from the tag before delegating.
pub struct KeySpacedDB {
    /// The keyspace tag identifying one child trie.
    pub keyspace: Vec<u8>,
}

/// Mutable view of a backing store under a keyspace tag; same prefix
/// derivation as [`KeySpacedDB`], with the writing operations as well.
pub struct KeySpacedDBMut {
    /// The keyspace tag identifying one child trie.
    pub keyspace: Vec<u8>,
}

impl KeySpacedDB {
    /// A view of the store under the given keyspace tag.
    pub fn new(ks: &[u8]) -> (r: KeySpacedDB)
        ensures
            r.keyspace@ == ks@,
    {
        KeySpacedDB { keyspace: vstd::slice::slice_to_vec(ks) }
    }

    /// Looks a digest up under the tag-derived prefix.
    pub fn get(&self, db: &PrefixedMemoryDB, key: &[u8; 32], prefix_main: &[u8], prefix_aux: Option<
        u8,
    >) -> (r: Option<Vec<u8>>)
        ensures
            (match r {
                Some(v) => store_get_spec(
                    store_contents(*db),
                    store_null(*db),
                    key@,
                    self.keyspace@ + prefix_main@,
                    prefix_aux,
                ) == Some(v@),
                None => store_get_spec(
                    store_contents(*db),
                    store_null(*db),
                    key@,
                    self.keyspace@ + prefix_main@,
                    prefix_aux,
                ) is None,
            }),
    {
        let derived = keyspace_as_prefix_alloc(self.keyspace.as_slice(), prefix_main, prefix_aux);
        mdb_get(db, key, derived.0.as_slice(), derived.1)
    }

    /// Whether a digest is present under the tag-derived prefix.
    pub fn contains(
        &self,
        db: &PrefixedMemoryDB,
        key: &[u8; 32],
        prefix_main: &[u8],
        prefix_aux: Option<u8>,
    ) -> (r: bool)
        ensures
            r == store_get_spec(
                store_contents(*db),
                store_null(*db),
                key@,
                self.keyspace@ + prefix_main@,
                prefix_aux,
            ) is Some,
    {
        let derived = keyspace_as_prefix_alloc(self.keyspace.as_slice(), prefix_main, prefix_aux);
        mdb_contains(db, key, derived.0.as_slice(), derived.1)
    }
}

impl KeySpacedDBMut {
    /// A mutable view of the store under the given keyspace tag.
    pub fn new(ks: &[u8]) -> (r: KeySpacedDBMut)
        ensures
            r.keyspace@ == ks@,
    {
        KeySpacedDBMut { keyspace: vstd::slice::slice_to_vec(ks) }
    }

    /// Looks a digest up under the tag-derived prefix.
    pub fn get(&self, db: &PrefixedMemoryDB, key: &[u8; 32], prefix_main: &[u8], prefix_aux: Option<
        u8,
    >) -> (r: Option<Vec<u8>>)
        ensures
            (match r {
                Some(v) => store_get_spec(
                    store_contents(*db),
                    store_null(*db),
                    key@,
                    self.keyspace@ + prefix_main@,
                    prefix_aux,
                ) == Some(v@),
                None => store_get_spec(
                    store_contents(*db),
                    store_null(*db),
                    key@,
                    self.keyspace@ + prefix_main@,
                    prefix_aux,
                ) is None,
            }),
    {
        let derived = keyspace_as_prefix_alloc(self.keyspace.as_slice(), prefix_main, prefix_aux);
        mdb_get(db, key, derived.0.as_slice(), derived.1)
    }

    /// Whether a digest is present under the tag-derived prefix.
    pub fn contains(
        &self,
        db: &PrefixedMemoryDB,
        key: &[u8; 32],
        prefix_main: &[u8],
        prefix_aux: Option<u8>,
    ) -> (r: bool)
        ensures
            r == store_get_spec(
                store_contents(*db),
                store_null(*db),
                key@,
                self.keyspace@ + prefix_main@,
                prefix_aux,
            ) is Some,
    {
        let derived = keyspace_as_prefix_alloc(self.keyspace.as_slice(), prefix_main, prefix_aux);
        mdb_contains(db, key, derived.0.as_slice(), derived.1)
    }

    /// Files a value under its own digest, under the tag-derived prefix, and
    /// reports that digest.
    pub fn insert(
        &self,
        db: &mut PrefixedMemoryDB,
        prefix_main: &[u8],
        prefix_aux: Option<u8>,
        value: &[u8],
    ) -> (r: [u8; 32])
        requires
            store_counts_below_max(store_contents(*old(db))),
        ensures
            r@ == store_insert_key_spec(store_null(*old(db)), value@),
            store_contents(*final(db)) == store_insert_spec(
                store_contents(*old(db)),
                store_null(*old(db)),
                self.keyspace@ + prefix_main@,
                prefix_aux,
                value@,
            ),
            store_null(*final(db)) == store_null(*old(db)),
    {
        let derived = keyspace_as_prefix_alloc(self.keyspace.as_slice(), prefix_main, prefix_aux);
        mdb_insert(db, derived.0.as_slice(), derived.1, value)
    }

    /// Files a value under the caller's digest, under the tag-derived
    /// prefix.
    pub fn emplace(
        &self,
        db: &mut PrefixedMemoryDB,
        key: [u8; 32],
        prefix_main: &[u8],
        prefix_aux: Option<u8>,
        value: Vec<u8>,
    )
        requires
            store_counts_below_max(store_contents(*old(db))),
        ensures
            store_contents(*final(db)) == store_emplace_spec(
                store_contents(*old(db)),
                store_null(*old(db)),
                key@,
                self.keyspace@ + prefix_main@,
                prefix_aux,
                value@,
            ),
            store_null(*final(db)) == store_null(*old(db)),
    {
        let derived = keyspace_as_prefix_alloc(self.keyspace.as_slice(), prefix_main, prefix_aux);
        mdb_emplace(db, key, derived.0.as_slice(), derived.1, value)
    }

    /// Gives one reference back under the tag-derived prefix.
    pub fn remove(&self, db: &mut PrefixedMemoryDB, key: &[u8; 32], prefix_main: &[u8], prefix_aux: Option<
        u8,
    >)
        requires
            store_counts_above_min(store_contents(*old(db))),
        ensures
            store_contents(*final(db)) == store_remove_spec(
                store_contents(*old(db)),
                store_null(*old(db)),
                key@,
                self.keyspace@ + prefix_main@,
                prefix_aux,
            ),
            store_null(*final(db)) == store_null(*old(db)),
    {
        let derived = keyspace_as_prefix_alloc(self.keyspace.as_slice(), prefix_main, prefix_aux);
        mdb_remove(db, key, derived.0.as_slice(), derived.1)
    }
}

/// Keyspace isolation: filing anything under one tag changes nothing that a
/// lookup under a different tag of the same length can observe, whatever
/// keys and prefixes either side uses. Tags of one deployment are
/// fixed-length, which keeps one tag from being an extension of another.
pub proof fn lemma_keyspace_isolation(
    contents: Map<Seq<u8>, (Seq<u8>, int)>,
    null: (Seq<u8>, Seq<u8>),
    tag_a: Seq<u8>,
    tag_b: Seq<u8>,
    write_prefix: Seq<u8>,
    write_aux: Option<u8>,
    value: Seq<u8>,
    read_key: Seq<u8>,
    read_prefix: Seq<u8>,
    read_aux: Option<u8>,
)
    requires
        tag_a.len() == tag_b.len(),
        tag_a != tag_b,
    ensures
        store_get_spec(
            store_insert_spec(contents, null, tag_a + write_prefix, write_aux, value),
            null,
            read_key,
            tag_b + read_prefix,
            read_aux,
        ) == store_get_spec(contents, null, read_key, tag_b + read_prefix, read_aux),
{
    if value == null.1 {
    } else {
        let write_key = prefixed_key_spec(tag_a + write_prefix, write_aux, crate::digest::digest_of(value));
        let lookup_key = prefixed_key_spec(tag_b + read_prefix, read_aux, read_key);
        assert(write_key != lookup_key) by {
            if write_key == lookup_key {
                assert forall|i: int| 0 <= i < tag_a.len() implies tag_a[i] == tag_b[i] by {
                    assert(write_key[i] == (tag_a + write_prefix)[i]);
                    assert(lookup_key[i] == (tag_b + read_prefix)[i]);
                }
                assert(tag_a =~= tag_b);
            }
        }
    }
}

} // verus!
