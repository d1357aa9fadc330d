//! Deterministic batched-delta application order: a delta batch is brought
//! into canonical byte-lexicographic key order before the external trie
//! engine applies it, so that the resulting root does not depend on the
//! order in which the caller enumerated the changes.

use vstd::prelude::*;
use vstd::seq_lib::group_to_multiset_ensures;

use crate::digest::DIGEST_LENGTH;

use crate::trie_constants::EMPTY_TRIE;
use crate::keyspace::KeySpacedDBMut;
use crate::lex::{key_lt, lemma_lex_connected, lemma_lex_irreflexive, lemma_lex_transitive, lex_le, lex_lt};

verus! {

/// One change of a delta batch: set the key to the value, or remove it.
pub type DeltaEntry = (Vec<u8>, Option<Vec<u8>>);

/// A delta entry as its mathematical value.
pub open spec fn entry_view(e: DeltaEntry) -> (Seq<u8>, Option<Seq<u8>>) {
    (
        e.0@,
        match e.1 {
            Some(v) => Some(v@),
            None => None,
        },
    )
}

/// A batch as its mathematical value.
pub open spec fn entries_view(s: Seq<DeltaEntry>) -> Seq<(Seq<u8>, Option<Seq<u8>>)> {
    s.map_values(|e: DeltaEntry| entry_view(e))
}

/// Whether a batch is in canonical order: keys ascend byte-lexicographically.
pub open spec fn sorted_by_key(d: Seq<(Seq<u8>, Option<Seq<u8>>)>) -> bool {
    forall|i: int, j: int| 0 <= i < j < d.len() ==> lex_le(#[trigger] d[i].0, #[trigger] d[j].0)
}

/// Whether no key occurs twice in a batch.
pub open spec fn unique_keys(d: Seq<(Seq<u8>, Option<Seq<u8>>)>) -> bool {
    forall|i: int, j: int|
        0 <= i < d.len() && 0 <= j < d.len() && i != j ==> (#[trigger] d[i].0) != (#[trigger] d[j].0)
}

/// The first position of the ordered batch whose key is not below `key`:
/// the position at which an entry with that key is filed.
fn find_position(ordered: &Vec<DeltaEntry>, key: &[u8]) -> (pos: usize)
    requires
        sorted_by_key(entries_view(ordered@)),
    ensures
        pos <= ordered@.len(),
        forall|t: int| 0 <= t < pos ==> lex_lt(#[trigger] entries_view(ordered@)[t].0, key@),
        forall|t: int|
            pos <= t < ordered@.len() ==> !lex_lt(#[trigger] entries_view(ordered@)[t].0, key@),
{
    let n = ordered.len();
    let mut j: usize = 0;
    while j < n
        invariant
            j <= n,
            n == ordered@.len(),
            sorted_by_key(entries_view(ordered@)),
            forall|t: int| 0 <= t < j ==> lex_lt(#[trigger] entries_view(ordered@)[t].0, key@),
        decreases n - j,
    {
        let below = key_lt(ordered[j].0.as_slice(), key);
        if !below {
            proof {
                let ev = entries_view(ordered@);
                assert forall|t: int| j <= t < ev.len() implies !lex_lt(
                    #[trigger] ev[t].0,
                    key@,
                ) by {
                    if t > j && lex_lt(ev[t].0, key@) {
                        if ev[j as int].0 == ev[t].0 {
                        } else {
                            assert(lex_le(ev[j as int].0, ev[t].0));
                            lemma_lex_transitive(ev[j as int].0, ev[t].0, key@);
                        }
                    }
                }
            }
            return j;
        }
        j = j + 1;
    }
    j
}

/// Mapping a batch through its view commutes with inserting one entry.
proof fn lemma_entries_view_insert(s: Seq<DeltaEntry>, j: int, x: DeltaEntry)
    requires
        0 <= j <= s.len(),
    ensures
        entries_view(s.insert(j, x)) =~= entries_view(s).insert(j, entry_view(x)),
{
    s.insert_ensures(j, x);
    entries_view(s).insert_ensures(j, entry_view(x));
}

/// A nonempty batch is its last entry appended to the rest.
proof fn lemma_entries_view_unsnoc(s: Seq<DeltaEntry>)
    requires
        s.len() > 0,
    ensures
        entries_view(s) =~= entries_view(s.subrange(0, s.len() - 1)).push(entry_view(s.last())),
{
}

/// Brings a delta batch into canonical application order: the same entries,
/// with keys ascending byte-lexicographically, entries of one key keeping
/// their relative order; an empty batch stays empty.
pub fn delta_apply_order(delta: Vec<DeltaEntry>) -> (ordered: Vec<DeltaEntry>)
    ensures
        entries_view(ordered@).to_multiset() == entries_view(delta@).to_multiset(),
        sorted_by_key(entries_view(ordered@)),
        delta@.len() == 0 ==> ordered@.len() == 0,
{
    broadcast use group_to_multiset_ensures;
    broadcast use vstd::multiset::group_multiset_axioms;

    let ghost initial = entries_view(delta@);
    let mut rest = delta;
    let mut ordered: Vec<DeltaEntry> = Vec::new();
    proof {
        assert(entries_view(ordered@) =~= Seq::empty());
        assert(entries_view(ordered@).to_multiset().add(entries_view(rest@).to_multiset())
            =~= initial.to_multiset());
    }
    while rest.len() != 0
        invariant
            sorted_by_key(entries_view(ordered@)),
            entries_view(ordered@).to_multiset().add(entries_view(rest@).to_multiset())
                == initial.to_multiset(),
            ordered@.len() + rest@.len() == initial.len(),
        decreases rest@.len(),
    {
        let ghost rest_before = rest@;
        proof {
            lemma_entries_view_unsnoc(rest_before);
        }
        let x = rest.pop().unwrap();
        let pos = find_position(&ordered, x.0.as_slice());
        let ghost ordered_before = ordered@;
        proof {
            let ev = entries_view(ordered_before);
            let xv = entry_view(x);
            ev.insert_ensures(pos as int, xv);
            assert forall|i: int, j: int|
                0 <= i < j < ev.insert(pos as int, xv).len() implies lex_le(
                #[trigger] ev.insert(pos as int, xv)[i].0,
                #[trigger] ev.insert(pos as int, xv)[j].0,
            ) by {
                let newv = ev.insert(pos as int, xv);
                if j == pos {
                    assert(lex_lt(newv[i].0, xv.0));
                } else if i == pos {
                    assert(!lex_lt(newv[j].0, xv.0));
                    if xv.0 != newv[j].0 {
                        lemma_lex_connected(xv.0, newv[j].0);
                    }
                } else if j < pos {
                    assert(lex_le(ev[i].0, ev[j].0));
                } else if i < pos {
                    assert(lex_le(ev[i].0, ev[j - 1].0));
                } else {
                    assert(lex_le(ev[i - 1].0, ev[j - 1].0));
                }
            }
        }
        ordered.insert(pos, x);
        proof {
            broadcast use group_to_multiset_ensures;
            broadcast use vstd::multiset::group_multiset_axioms;

            let xv = entry_view(x);
            lemma_entries_view_insert(ordered_before, pos as int, x);
            assert(entries_view(ordered@).to_multiset() == entries_view(
                ordered_before,
            ).to_multiset().insert(xv)) by {
                assert(entries_view(ordered@) =~= entries_view(ordered_before).insert(
                    pos as int,
                    xv,
                ));
                assert(entries_view(ordered_before).insert(pos as int, xv).to_multiset()
                    == entries_view(ordered_before).to_multiset().insert(xv));
            }
            assert(entries_view(rest_before).to_multiset() == entries_view(
                rest@,
            ).to_multiset().insert(xv)) by {
                assert(entries_view(rest@) =~= entries_view(rest_before.subrange(
                    0,
                    rest_before.len() - 1,
                )));
                assert(entries_view(rest_before) =~= entries_view(rest@).push(xv));
                assert(entries_view(rest@).push(xv).to_multiset() == entries_view(
                    rest@,
                ).to_multiset().insert(xv));
            }
            assert(entries_view(ordered@).to_multiset().add(entries_view(rest@).to_multiset())
                =~= entries_view(ordered_before).to_multiset().add(entries_view(
                rest_before,
            ).to_multiset()));
        }
    }
    proof {
        let ghost empty_rest = entries_view(rest@);
        assert(empty_rest =~= Seq::empty());
        assert forall|e: (Seq<u8>, Option<Seq<u8>>)| empty_rest.to_multiset().count(e) == 0 by {
            assert(!empty_rest.contains(e));
        }
        assert(entries_view(ordered@).to_multiset() =~= entries_view(ordered@).to_multiset().add(
            empty_rest.to_multiset(),
        ));
    }
    ordered
}

/// Unique keys carry over to any batch with the same entries.
pub proof fn lemma_unique_keys_multiset(
    d1: Seq<(Seq<u8>, Option<Seq<u8>>)>,
    d2: Seq<(Seq<u8>, Option<Seq<u8>>)>,
)
    requires
        unique_keys(d1),
        d1.to_multiset() == d2.to_multiset(),
    ensures
        unique_keys(d2),
{
    broadcast use group_to_multiset_ensures;
    broadcast use vstd::multiset::group_multiset_axioms;

    assert forall|i: int, j: int|
        0 <= i < d2.len() && 0 <= j < d2.len() && i != j implies (#[trigger] d2[i].0) != (
    #[trigger] d2[j].0) by {
        if d2[i].0 == d2[j].0 {
            let e1 = d2[i];
            let e2 = d2[j];
            if e1 == e2 {
                // The same entry would stand twice in `d2`, hence twice in
                // `d1`, against its unique keys.
                assert(d2.remove(i).to_multiset() =~= d2.to_multiset().remove(e1));
                let jr = if j < i {
                    j
                } else {
                    j - 1
                };
                d2.remove_ensures(i);
                assert(d2.remove(i)[jr] == e1);
                assert(d2.remove(i).contains(e1));
                assert(d2.to_multiset().remove(e1).count(e1) > 0);
                assert(d1.to_multiset().count(e1) >= 2);
                assert(d1.to_multiset().contains(e1));
                assert(d1.contains(e1));
                let k1 = choose|k: int| 0 <= k < d1.len() && d1[k] == e1;
                assert(d1.remove(k1).to_multiset() =~= d1.to_multiset().remove(e1));
                assert(d1.remove(k1).to_multiset().count(e1) > 0);
                assert(d1.remove(k1).contains(e1));
                let k2r = choose|k: int| 0 <= k < d1.remove(k1).len() && d1.remove(k1)[k] == e1;
                d1.remove_ensures(k1);
                let k2 = if k2r < k1 {
                    k2r
                } else {
                    k2r + 1
                };
                assert(d1[k2] == e1);
                assert(d1[k1].0 == d1[k2].0);
            } else {
                // Two different entries with one key would both stand in
                // `d1`, against its unique keys.
                assert(d2.contains(e1));
                assert(d1.to_multiset().contains(e1));
                assert(d1.contains(e1));
                assert(d2.contains(e2));
                assert(d1.to_multiset().contains(e2));
                assert(d1.contains(e2));
                let k1 = choose|k: int| 0 <= k < d1.len() && d1[k] == e1;
                let k2 = choose|k: int| 0 <= k < d1.len() && d1[k] == e2;
                assert(d1[k1].0 == d1[k2].0);
            }
        }
    }
}

/// Order independence: two canonically ordered batches holding the same
/// entries, with no key occurring twice, are one and the same sequence; the
/// engine hence applies the same changes in the same order and yields the
/// same root, however the caller enumerated the batch.
pub proof fn lemma_delta_order_independence(
    r1: Seq<(Seq<u8>, Option<Seq<u8>>)>,
    r2: Seq<(Seq<u8>, Option<Seq<u8>>)>,
)
    requires
        r1.to_multiset() == r2.to_multiset(),
        sorted_by_key(r1),
        sorted_by_key(r2),
        unique_keys(r1),
    ensures
        r1 =~= r2,
    decreases r1.len(),
{
    broadcast use group_to_multiset_ensures;
    broadcast use vstd::multiset::group_multiset_axioms;

    lemma_unique_keys_multiset(r1, r2);
    if r1.len() == 0 {
        assert(r1.to_multiset().len() == 0);
        assert(r2.len() == 0);
    } else {
        assert(r2.to_multiset().len() > 0);
        assert(r2.len() > 0);
        assert(r1[0] == r2[0]) by {
            assert(r2.contains(r2[0]));
            assert(r1.to_multiset().contains(r2[0]));
            assert(r1.contains(r2[0]));
            let i = choose|k: int| 0 <= k < r1.len() && r1[k] == r2[0];
            assert(r1.contains(r1[0]));
            assert(r2.to_multiset().contains(r1[0]));
            assert(r2.contains(r1[0]));
            let j = choose|k: int| 0 <= k < r2.len() && r2[k] == r1[0];
            if i > 0 && j > 0 {
                // The head of each batch would be strictly below the other's
                // head, which the order forbids.
                assert(lex_le(r1[0].0, r1[i].0));
                assert(r1[0].0 != r1[i].0);
                assert(lex_lt(r1[0].0, r2[0].0));
                assert(lex_le(r2[0].0, r2[j].0));
                assert(r2[0].0 != r2[j].0);
                assert(lex_lt(r2[0].0, r1[0].0));
                lemma_lex_transitive(r1[0].0, r2[0].0, r1[0].0);
                lemma_lex_irreflexive(r1[0].0);
            }
        }
        let t1 = r1.drop_first();
        let t2 = r2.drop_first();
        assert(t1 =~= r1.remove(0));
        assert(t2 =~= r2.remove(0));
        assert(t1.to_multiset() =~= r1.to_multiset().remove(r1[0]));
        assert(t2.to_multiset() =~= r2.to_multiset().remove(r2[0]));
        r1.remove_ensures(0);
        r2.remove_ensures(0);
        assert(sorted_by_key(t1)) by {
            assert forall|i: int, j: int| 0 <= i < j < t1.len() implies lex_le(
                #[trigger] t1[i].0,
                #[trigger] t1[j].0,
            ) by {
                assert(t1[i] == r1[i + 1]);
                assert(t1[j] == r1[j + 1]);
            }
        }
        assert(sorted_by_key(t2)) by {
            assert forall|i: int, j: int| 0 <= i < j < t2.len() implies lex_le(
                #[trigger] t2[i].0,
                #[trigger] t2[j].0,
            ) by {
                assert(t2[i] == r2[i + 1]);
                assert(t2[j] == r2[j + 1]);
            }
        }
        assert(unique_keys(t1)) by {
            assert forall|i: int, j: int|
                0 <= i < t1.len() && 0 <= j < t1.len() && i != j implies (#[trigger] t1[i].0) != (
            #[trigger] t1[j].0) by {
                assert(t1[i] == r1[i + 1]);
                assert(t1[j] == r1[j + 1]);
            }
        }
        lemma_delta_order_independence(t1, t2);
        assert forall|k: int| 0 <= k < r1.len() implies r1[k] == r2[k] by {
            if k > 0 {
                assert(t1[k - 1] == t2[k - 1]);
                assert(t1[k - 1] == r1[k]);
                assert(t2[k - 1] == r2[k]);
            }
        }
    }
}

/// The root digest of the canonical empty trie: the digest of the one-byte
/// empty-node header, the node under which a fresh backing store files its
/// reserved null entry.
pub fn empty_trie_root() -> (root: [u8; 32])
    ensures
        root@ == crate::digest::digest_of(seq![EMPTY_TRIE]),
{
    let mut header: Vec<u8> = Vec::new();
    header.push(EMPTY_TRIE);
    crate::digest::hash_bytes(header.as_slice())
}

/// The root digest of the canonical empty child trie, which shares the empty
/// trie's encoding.
pub fn empty_child_trie_root() -> (root: [u8; 32])
    ensures
        root@ == crate::digest::digest_of(seq![EMPTY_TRIE]),
{
    empty_trie_root()
}

/// Reads a child trie's current root out of its raw fixed-width byte form.
pub fn decode_child_root(root_data: &[u8]) -> (root: [u8; 32])
    requires
        root_data@.len() == DIGEST_LENGTH,
    ensures
        root@ == root_data@,
{
    let mut root = [0u8; 32];
    let mut i: usize = 0;
    while i < 32
        invariant
            i <= 32,
            root_data@.len() == 32,
            root@.len() == 32,
            forall|t: int| 0 <= t < i ==> root@[t] == root_data@[t],
        decreases 32 - i,
    {
        root[i] = root_data[i];
        i = i + 1;
    }
    proof {
        assert(root@ =~= root_data@);
    }
    root
}

/// The verified part of a child-trie delta recomputation: decodes the
/// child's current root from its raw byte form, opens a mutable keyspace
/// view under the child's tag, and brings the batch into canonical order;
/// the external trie engine then applies the ordered entries against the
/// root through the view.
pub fn child_delta_apply_order(keyspace: &[u8], root_data: &[u8], delta: Vec<DeltaEntry>) -> (r: (
    [u8; 32],
    KeySpacedDBMut,
    Vec<DeltaEntry>,
))
    requires
        root_data@.len() == DIGEST_LENGTH,
    ensures
        r.0@ == root_data@,
        r.1.keyspace@ == keyspace@,
        entries_view(r.2@).to_multiset() == entries_view(delta@).to_multiset(),
        sorted_by_key(entries_view(r.2@)),
        delta@.len() == 0 ==> r.2@.len() == 0,
{
    let root = decode_child_root(root_data);
    let view = KeySpacedDBMut::new(keyspace);
    let ordered = delta_apply_order(delta);
    (root, view, ordered)
}

} // verus!
