//! Per-node value metadata: one ephemeral record per node visit, driven by
//! the external trie engine through fixed lifecycle callbacks while a node is
//! encoded or decoded. Only the record's effect on the node's emitted bytes
//! is ever persisted.

use vstd::prelude::*;

use crate::trie_constants::ENCODED_META_ALLOW_HASH;

verus! {

/// Placement of a node's value inside the node's encoded bytes, as reported
/// by the node encoder or decoder.
#[derive(Clone, Copy, PartialEq, Eq, Debug)]
pub enum ValuePlan {
    /// The value's own bytes sit at `start..end` of the encoding.
    Value(usize, usize),
    /// A digest of the value sits at `start..end` of the encoding; the third
    /// field is the size the original value had.
    HashedValue(usize, usize, usize),
    /// The node carries no value.
    NoValue,
}

/// Per-node record tracking how the node's value is currently represented:
/// inline or hash-substituted, and under which of the two historical
/// encoding generations.
#[derive(Clone, Copy, PartialEq, Eq, Debug)]
pub struct TrieMeta {
    /// Half-open range into the node's raw encoded bytes where the value (or
    /// its digest) lives; absent until the node is encoded or decoded.
    pub range: Option<(usize, usize)>,
    /// True once this node records, in its own persisted bytes, that the
    /// inner-hashing policy is active.
    pub recorded_do_value_hash: bool,
    /// True when `range` addresses a digest rather than the value's bytes.
    pub contain_hash: bool,
    /// True when inner hashing should currently be applied for this node;
    /// inherited from the parent node at creation time.
    pub do_value_hash: bool,
    /// True while the value has not been individually accessed; supports
    /// selective-disclosure proof recording.
    pub unused_value: bool,
    /// True when the node's stored bytes follow the pre-inner-hashing
    /// format; cleared by the next write performed with hashing active.
    pub old_hash: bool,
}

/// The all-default record, used for the canonical empty trie.
pub open spec fn empty_meta() -> TrieMeta {
    TrieMeta {
        range: None,
        recorded_do_value_hash: false,
        contain_hash: false,
        do_value_hash: false,
        unused_value: false,
        old_hash: false,
    }
}

/// Whether a raw stored payload begins with the policy-active marker byte.
pub open spec fn has_policy_marker(data: Seq<u8>) -> bool {
    data.len() > 0 && data[0] == ENCODED_META_ALLOW_HASH
}

/// How many leading bytes reading the policy marker consumes.
pub open spec fn policy_marker_len(data: Seq<u8>) -> int {
    if has_policy_marker(data) {
        1
    } else {
        0
    }
}

/// The record after reading the leading policy marker of `data`: both policy
/// flags are set when the marker is present, and nothing changes otherwise.
pub open spec fn read_policy_marker_spec(m: TrieMeta, data: Seq<u8>) -> TrieMeta {
    if has_policy_marker(data) {
        TrieMeta { recorded_do_value_hash: true, do_value_hash: true, ..m }
    } else {
        m
    }
}

/// The bytes prepended to a node's persisted payload: the single reserved
/// marker byte when the record says the policy must be persisted, else
/// nothing.
pub open spec fn policy_marker_bytes(m: TrieMeta) -> Seq<u8> {
    if m.recorded_do_value_hash {
        seq![ENCODED_META_ALLOW_HASH]
    } else {
        Seq::empty()
    }
}

/// The record after the node encoder reports where the value was placed:
/// `range` and `contain_hash` are taken from the plan, and a write performed
/// while hashing is active migrates the node off the legacy format.
pub open spec fn encoded_value_spec(m: TrieMeta, plan: ValuePlan) -> TrieMeta {
    match plan {
        ValuePlan::Value(start, end) => TrieMeta {
            range: Some((start, end)),
            contain_hash: false,
            old_hash: if m.do_value_hash {
                false
            } else {
                m.old_hash
            },
            ..m
        },
        ValuePlan::HashedValue(start, end, _size) => TrieMeta {
            range: Some((start, end)),
            contain_hash: true,
            old_hash: if m.do_value_hash {
                false
            } else {
                m.old_hash
            },
            ..m
        },
        ValuePlan::NoValue => m,
    }
}

/// The record after a node is decoded: as [`encoded_value_spec`], but sourced
/// from the decoded node's plan and leaving the legacy flag untouched.
pub open spec fn decoded_value_spec(m: TrieMeta, plan: Option<ValuePlan>) -> TrieMeta {
    match plan {
        Some(ValuePlan::Value(start, end)) => TrieMeta {
            range: Some((start, end)),
            contain_hash: false,
            ..m
        },
        Some(ValuePlan::HashedValue(start, end, _size)) => TrieMeta {
            range: Some((start, end)),
            contain_hash: true,
            ..m
        },
        Some(ValuePlan::NoValue) => m,
        None => m,
    }
}

impl TrieMeta {
    /// A default record inheriting `do_value_hash` from the parent, used when
    /// a node is freshly created.
    pub fn meta_for_new(parent: Option<&TrieMeta>) -> (m: TrieMeta)
        ensures
            m == (TrieMeta {
                do_value_hash: (match parent {
                    Some(p) => p.do_value_hash,
                    None => false,
                }),
                ..empty_meta()
            }),
    {
        let do_value_hash = match parent {
            Some(p) => p.do_value_hash,
            None => false,
        };
        TrieMeta {
            range: None,
            recorded_do_value_hash: false,
            contain_hash: false,
            do_value_hash,
            unused_value: false,
            old_hash: false,
        }
    }

    /// Same semantics as [`TrieMeta::meta_for_new`], used when materializing
    /// a node that was stored inline under the given parent.
    pub fn meta_for_existing_inline_node(parent: Option<&TrieMeta>) -> (m: TrieMeta)
        ensures
            m == (TrieMeta {
                do_value_hash: (match parent {
                    Some(p) => p.do_value_hash,
                    None => false,
                }),
                ..empty_meta()
            }),
    {
        Self::meta_for_new(parent)
    }

    /// The all-default record of the canonical empty trie.
    pub fn meta_for_empty() -> (m: TrieMeta)
        ensures
            m == empty_meta(),
    {
        TrieMeta {
            range: None,
            recorded_do_value_hash: false,
            contain_hash: false,
            do_value_hash: false,
            unused_value: false,
            old_hash: false,
        }
    }

    /// Sets both policy flags at once: the node both applies inner hashing
    /// and records that fact in its persisted bytes.
    pub fn set_state_meta(&mut self, state_meta: bool)
        ensures
            *final(self) == (TrieMeta {
                recorded_do_value_hash: state_meta,
                do_value_hash: state_meta,
                ..*old(self)
            }),
    {
        self.recorded_do_value_hash = state_meta;
        self.do_value_hash = state_meta;
    }

    /// Whether the node records the active policy in its persisted bytes.
    pub fn has_state_meta(&self) -> (r: bool)
        ensures
            r == self.recorded_do_value_hash,
    {
        self.recorded_do_value_hash
    }

    /// Inspects the first byte of a raw stored payload: when it is the
    /// reserved policy-active marker, sets both policy flags and reports one
    /// consumed byte; otherwise reports zero and leaves the record untouched.
    /// Unrecognized leading bytes are left for the caller to interpret.
    pub fn read_state_meta(&mut self, data: &[u8]) -> (consumed: usize)
        ensures
            consumed == policy_marker_len(data@),
            *final(self) == read_policy_marker_spec(*old(self), data@),
    {
        if data.len() > 0 && data[0] == ENCODED_META_ALLOW_HASH {
            self.recorded_do_value_hash = true;
            self.do_value_hash = true;
            1
        } else {
            0
        }
    }

    /// The bytes to prepend to the node's persisted payload; the exact
    /// inverse of [`TrieMeta::read_state_meta`]. The node codec never emits a
    /// node starting with the reserved marker byte, which keeps the marker
    /// unambiguous.
    pub fn write_state_meta(&self) -> (out: Vec<u8>)
        ensures
            out@ == policy_marker_bytes(*self),
    {
        let mut out: Vec<u8> = Vec::new();
        if self.recorded_do_value_hash {
            out.push(ENCODED_META_ALLOW_HASH);
        }
        out
    }

    /// Records where the node encoder placed the value; a no-op when the
    /// node carries no value. A write with hashing active clears the legacy
    /// flag, migrating the node forward.
    pub fn encoded_value_callback(&mut self, value_plan: ValuePlan)
        ensures
            *final(self) == encoded_value_spec(*old(self), value_plan),
    {
        match value_plan {
            ValuePlan::Value(start, end) => {
                self.range = Some((start, end));
                self.contain_hash = false;
                if self.do_value_hash {
                    self.old_hash = false;
                }
            },
            ValuePlan::HashedValue(start, end, _size) => {
                self.range = Some((start, end));
                self.contain_hash = true;
                if self.do_value_hash {
                    self.old_hash = false;
                }
            },
            ValuePlan::NoValue => {},
        }
    }

    /// Records where the decoded node's plan places the value; mirrors
    /// [`TrieMeta::encoded_value_callback`] but never touches the legacy
    /// flag.
    pub fn decoded_callback(&mut self, value_plan: Option<ValuePlan>)
        ensures
            *final(self) == decoded_value_spec(*old(self), value_plan),
    {
        match value_plan {
            Some(ValuePlan::Value(start, end)) => {
                self.range = Some((start, end));
                self.contain_hash = false;
            },
            Some(ValuePlan::HashedValue(start, end, _size)) => {
                self.range = Some((start, end));
                self.contain_hash = true;
            },
            Some(ValuePlan::NoValue) => {},
            None => {},
        }
    }

    /// Whether `range` addresses a digest of the value rather than the value
    /// itself.
    pub fn contains_hash_of_value(&self) -> (r: bool)
        ensures
            r == self.contain_hash,
    {
        self.contain_hash
    }

    /// Whether hash substitution is still allowed for this node's value at
    /// store time: the case as long as the value has not been individually
    /// accessed.
    pub fn do_value_hash(&self) -> (r: bool)
        ensures
            r == self.unused_value,
    {
        self.unused_value
    }

    /// Was the value accessed.
    pub fn accessed_value(&mut self) -> (r: bool)
        ensures
            *final(self) == *old(self),
            r == !old(self).unused_value,
    {
        !self.unused_value
    }

    /// For proof recording: lets a node be held as unaccessed until the
    /// store reports an access.
    pub fn set_accessed_value(&mut self, accessed: bool)
        ensures
            *final(self) == (TrieMeta { unused_value: !accessed, ..*old(self) }),
    {
        self.unused_value = !accessed;
    }
}

impl Default for TrieMeta {
    /// The all-default record.
    fn default() -> (m: Self)
        ensures
            m == empty_meta(),
    {
        TrieMeta::meta_for_empty()
    }
}

/// Marker round-trip: reading the leading policy marker of
/// `policy_marker_bytes(m) ++ tail` into a fresh record reproduces `m`'s
/// policy flag and consumes exactly the emitted bytes, for any trailing
/// bytes that do not themselves begin with the reserved marker (the node
/// codec never emits such bytes).
pub proof fn lemma_policy_marker_roundtrip(m: TrieMeta, tail: Seq<u8>)
    requires
        tail.len() > 0 ==> tail[0] != ENCODED_META_ALLOW_HASH,
    ensures
        policy_marker_len(policy_marker_bytes(m) + tail) == policy_marker_bytes(m).len(),
        read_policy_marker_spec(empty_meta(), policy_marker_bytes(m) + tail).recorded_do_value_hash
            == m.recorded_do_value_hash,
        read_policy_marker_spec(empty_meta(), policy_marker_bytes(m) + tail).do_value_hash
            == m.recorded_do_value_hash,
{
    let bytes = policy_marker_bytes(m) + tail;
    if m.recorded_do_value_hash {
        assert(bytes[0] == ENCODED_META_ALLOW_HASH);
    } else {
        assert(bytes =~= tail);
    }
}

} // verus!
