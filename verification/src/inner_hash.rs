//! Inner-hash transform: a pure byte transform that replaces a designated
//! range of an already-serialized value with its digest, leaving the bytes
//! around the range untouched.

use vstd::prelude::*;

use crate::digest::{digest_of, hash_bytes, lemma_digest_len};

verus! {

/// The shortened encoding: the bytes at `start..end` are replaced by a
/// digest, chosen among three cases by range position, with an out-of-bounds
/// range left untouched as a defensive fallback.
///
/// In the initial case (`start == 0`, `end < len`) the digest spliced in is
/// the digest of the empty prefix `x[0..0]`, by construction of the range.
pub open spec fn inner_hashed_spec(x: Seq<u8>, range: Option<(usize, usize)>) -> Seq<u8> {
    match range {
        Some((start, end)) => {
            if start < x.len() && end == x.len() {
                x.take(start as int) + digest_of(x.skip(start as int))
            } else if start == 0 && end < x.len() {
                digest_of(x.take(start as int)) + x.skip(end as int)
            } else if start < x.len() && end < x.len() {
                x.take(start as int) + digest_of(x.subrange(start as int, end as int)) + x.skip(
                    end as int,
                )
            } else {
                x
            }
        },
        None => x,
    }
}

/// Appends all of `s` to `out`.
pub(crate) fn push_bytes(out: &mut Vec<u8>, s: &[u8])
    ensures
        final(out)@ == old(out)@ + s@,
{
    let mut i: usize = 0;
    while i < s.len()
        invariant
            i <= s@.len(),
            out@ == old(out)@ + s@.take(i as int),
        decreases s@.len() - i,
    {
        out.push(s[i]);
        proof {
            assert(out@ =~= old(out)@ + s@.take(i + 1));
        }
        i = i + 1;
    }
    proof {
        assert(out@ =~= old(out)@ + s@);
    }
}

/// Computes the shortened encoding of `x` in which `x[range]` is replaced by
/// its digest; an out-of-bounds range returns `x` unchanged.
pub fn inner_hashed_value(x: &[u8], range: Option<(usize, usize)>) -> (out: Vec<u8>)
    requires
        (range matches Some((start, end)) ==> start <= end),
    ensures
        out@ == inner_hashed_spec(x@, range),
{
    match range {
        Some((start, end)) => {
            let len = x.len();
            if start < len && end == len {
                let digest = hash_bytes(vstd::slice::slice_subrange(x, start, len));
                let mut out: Vec<u8> = Vec::new();
                push_bytes(&mut out, vstd::slice::slice_subrange(x, 0, start));
                push_bytes(&mut out, digest.as_slice());
                out
            } else if start == 0 && end < len {
                let digest = hash_bytes(vstd::slice::slice_subrange(x, 0, start));
                let mut out: Vec<u8> = Vec::new();
                push_bytes(&mut out, digest.as_slice());
                push_bytes(&mut out, vstd::slice::slice_subrange(x, end, len));
                out
            } else if start < len && end < len {
                let digest = hash_bytes(vstd::slice::slice_subrange(x, start, end));
                let mut out: Vec<u8> = Vec::new();
                push_bytes(&mut out, vstd::slice::slice_subrange(x, 0, start));
                push_bytes(&mut out, digest.as_slice());
                push_bytes(&mut out, vstd::slice::slice_subrange(x, end, len));
                out
            } else {
                vstd::slice::slice_to_vec(x)
            }
        },
        None => vstd::slice::slice_to_vec(x),
    }
}

/// Inner-hash length law: for a valid sub-range the transform shortens the
/// bytes by the range's length and adds one digest width, and the bytes
/// before the range and after it are carried over unchanged.
pub proof fn lemma_inner_hash_length(x: Seq<u8>, start: usize, end: usize)
    requires
        start <= end,
        end <= x.len(),
        start < x.len(),
    ensures
        inner_hashed_spec(x, Some((start, end))).len() == x.len() - (end - start) + 32,
        inner_hashed_spec(x, Some((start, end))).take(start as int) == x.take(start as int),
        inner_hashed_spec(x, Some((start, end))).skip(
            inner_hashed_spec(x, Some((start, end))).len() - (x.len() - end),
        ) == x.skip(end as int),
{
    let r = inner_hashed_spec(x, Some((start, end)));
    if start < x.len() && end == x.len() {
        lemma_digest_len(x.skip(start as int));
        assert(r.take(start as int) =~= x.take(start as int));
        assert(r.skip(r.len() - (x.len() - end)) =~= x.skip(end as int));
    } else if start == 0 && end < x.len() {
        lemma_digest_len(x.take(start as int));
        assert(r.take(start as int) =~= x.take(start as int));
        assert(r.skip(r.len() - (x.len() - end)) =~= x.skip(end as int));
    } else {
        lemma_digest_len(x.subrange(start as int, end as int));
        assert(r.take(start as int) =~= x.take(start as int));
        assert(r.skip(r.len() - (x.len() - end)) =~= x.skip(end as int));
    }
}

} // verus!
