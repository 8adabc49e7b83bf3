//! The bit layout of an identifier, as constants and as mathematics.
use vstd::prelude::*;

verus! {

/// Milliseconds from the Unix epoch to 2024-01-01T00:00:00Z, the origin of
/// the timestamp field.
pub const CUSTOM_EPOCH_MS: u64 = 1_704_067_200_000;
/// The first timestamp that the 40-bit field cannot hold.
pub const TIMESTAMP_LIMIT: u64 = 0x100_0000_0000;
/// Width of the sequence field.
pub const SEQUENCE_BITS: u64 = 13;
/// Position of the timestamp field.
pub const TIMESTAMP_SHIFT: u64 = 23;
/// Position of the node field.
pub const NODE_SHIFT: u64 = 13;
/// Mask of the sequence field.
pub const SEQUENCE_MASK: u64 = 0x1fff;
/// Largest sequence number.
pub const MAX_SEQUENCE: u64 = 0x1fff;
/// Largest node id.
pub const MAX_NODE_ID: u16 = 1023;
/// Mask of the timestamp field once shifted down.
pub const TIMESTAMP_MASK: u64 = 0xff_ffff_ffff;
/// Mask of the node field once shifted down.
pub const NODE_MASK: u64 = 0x3ff;

/// 2^23: the weight of one millisecond in an identifier.
pub open spec fn ts_unit() -> int { 0x80_0000 }

/// 2^13: the weight of one node step in an identifier, and the number of
/// sequence values per millisecond.
pub open spec fn node_unit() -> int { 0x2000 }

/// 2^40: the number of timestamps the field can hold.
pub open spec fn ts_range() -> int { 0x100_0000_0000 }

/// 2^64.
pub open spec fn word() -> int { 0x1_0000_0000_0000_0000 }

/// The timestamp field of a raw identifier.
pub open spec fn ts_field(raw: u64) -> int {
    (raw as int / ts_unit()) % ts_range()
}

/// The node field of a raw identifier.
pub open spec fn node_field(raw: u64) -> int {
    (raw as int / node_unit()) % 0x400
}

/// The sequence field of a raw identifier.
pub open spec fn seq_field(raw: u64) -> int {
    raw as int % node_unit()
}

/// The raw identifier made of a timestamp, a node id and a sequence number;
/// a timestamp beyond the field wraps, as the 64-bit shift does.
pub open spec fn compose(ts: int, node: int, seq: int) -> int {
    (ts * ts_unit() + node * node_unit() + seq) % word()
}

/// The place of a (timestamp, sequence) pair on one line, in the order in
/// which a node hands them out: the same number the shared state holds.
pub open spec fn position(ts: int, seq: int) -> int {
    ts * node_unit() + seq
}

/// The three fields of a raw identifier determine it, but for its top bit,
/// which no field holds.
pub proof fn lemma_fields_recompose(raw: u64)
    requires
        raw < 0x8000_0000_0000_0000u64,
    ensures
        compose(ts_field(raw), node_field(raw), seq_field(raw)) == raw,
{
    assert(raw == (((raw / 0x80_0000) % 0x100_0000_0000) * 0x80_0000 + ((raw / 0x2000) % 0x400)
        * 0x2000 + raw % 0x2000)) by (nonlinear_arith)
        requires raw < 0x8000_0000_0000_0000u64;
}

/// Shifting and masking give the fields that the arithmetic definitions
/// describe.
pub proof fn lemma_field_bits(raw: u64)
    ensures
        (raw >> 23u64) & 0xff_ffff_ffffu64 == ts_field(raw),
        (raw >> 13u64) & 0x3ffu64 == node_field(raw),
        raw & 0x1fffu64 == seq_field(raw),
{
    assert((raw >> 23u64) & 0xff_ffff_ffffu64 == (raw / 0x80_0000) % 0x100_0000_0000)
        by (bit_vector);
    assert((raw >> 13u64) & 0x3ffu64 == (raw / 0x2000) % 0x400) by (bit_vector);
    assert(raw & 0x1fffu64 == raw % 0x2000) by (bit_vector);
}

/// Shifting the fields into place and joining them gives the identifier
/// that `compose` describes, wrap of the timestamp included.
pub proof fn lemma_compose_bits(ts: u64, node: u64, seq: u64)
    requires
        node < 0x400,
        seq < 0x2000,
    ensures
        (ts << 23u64) | (node << 13u64) | seq == compose(ts as int, node as int, seq as int),
{
    let hi = ts << 23u64;
    assert(hi == (ts % 0x200_0000_0000) * 0x80_0000) by (bit_vector)
        requires hi == ts << 23u64;
    assert(hi | (node << 13u64) | seq == hi + node * 0x2000 + seq) by (bit_vector)
        requires
            hi == (ts % 0x200_0000_0000) * 0x80_0000,
            node < 0x400,
            seq < 0x2000,
    ;
    assert((ts % 0x200_0000_0000) * 0x80_0000 + node * 0x2000 + seq == (ts * 0x80_0000 + node
        * 0x2000 + seq) % 0x1_0000_0000_0000_0000) by (nonlinear_arith)
        requires
            node < 0x400,
            seq < 0x2000,
    ;
}

/// An identifier made of a timestamp, a node id and a sequence number gives
/// them back: the node and the sequence exactly, the timestamp as far as its
/// 40 bits hold it.
pub proof fn lemma_compose_fields(ts: u64, node: int, seq: int)
    requires
        0 <= node < 0x400,
        0 <= seq < 0x2000,
    ensures
        ({
            let raw = compose(ts as int, node, seq) as u64;
            &&& ts_field(raw) == ts as int % ts_range()
            &&& node_field(raw) == node
            &&& seq_field(raw) == seq
        }),
{
    let lo = node * 0x2000 + seq;
    let t = ts as int;
    assert(0 <= lo < 0x80_0000) by (nonlinear_arith)
        requires 0 <= node < 0x400, 0 <= seq < 0x2000, lo == node * 0x2000 + seq;
    assert((t * 0x80_0000 + lo) % 0x1_0000_0000_0000_0000 == (t % 0x200_0000_0000) * 0x80_0000
        + lo) by (nonlinear_arith)
        requires 0 <= lo < 0x80_0000, t >= 0;
    let raw = (t % 0x200_0000_0000) * 0x80_0000 + lo;
    assert(raw / 0x80_0000 == t % 0x200_0000_0000) by (nonlinear_arith)
        requires raw == (t % 0x200_0000_0000) * 0x80_0000 + lo, 0 <= lo < 0x80_0000;
    assert((t % 0x200_0000_0000) % 0x100_0000_0000 == t % 0x100_0000_0000) by (nonlinear_arith)
        requires t >= 0;
    assert(raw / 0x2000 == (t % 0x200_0000_0000) * 0x400 + node) by (nonlinear_arith)
        requires raw == (t % 0x200_0000_0000) * 0x80_0000 + node * 0x2000 + seq, 0 <= seq
            < 0x2000, 0 <= node;
    assert(((t % 0x200_0000_0000) * 0x400 + node) % 0x400 == node) by (nonlinear_arith)
        requires 0 <= node < 0x400, t >= 0;
    assert(raw % 0x2000 == seq) by (nonlinear_arith)
        requires raw == (t % 0x200_0000_0000) * 0x80_0000 + node * 0x2000 + seq, 0 <= seq
            < 0x2000, t >= 0, node >= 0;
}

/// Within the timestamp range, and for one node, identifiers are ordered as
/// their (timestamp, sequence) positions are.
pub proof fn lemma_id_order_is_position_order(t1: int, s1: int, t2: int, s2: int, node: int)
    requires
        0 <= t1 < ts_range(),
        0 <= t2 < ts_range(),
        0 <= s1 < node_unit(),
        0 <= s2 < node_unit(),
        0 <= node < 0x400,
    ensures
        compose(t1, node, s1) < compose(t2, node, s2) <==> position(t1, s1) < position(t2, s2),
        compose(t1, node, s1) == compose(t2, node, s2) <==> position(t1, s1) == position(t2, s2),
{
    assert(t1 * 0x80_0000 + node * 0x2000 + s1 < 0x1_0000_0000_0000_0000) by (nonlinear_arith)
        requires 0 <= t1 < 0x100_0000_0000, 0 <= node < 0x400, 0 <= s1 < 0x2000;
    assert(t2 * 0x80_0000 + node * 0x2000 + s2 < 0x1_0000_0000_0000_0000) by (nonlinear_arith)
        requires 0 <= t2 < 0x100_0000_0000, 0 <= node < 0x400, 0 <= s2 < 0x2000;
    assert(t1 * 0x80_0000 + node * 0x2000 + s1 >= 0) by (nonlinear_arith)
        requires 0 <= t1, 0 <= node, 0 <= s1;
    assert(t2 * 0x80_0000 + node * 0x2000 + s2 >= 0) by (nonlinear_arith)
        requires 0 <= t2, 0 <= node, 0 <= s2;
    assert((t1 * 0x80_0000 + s1 < t2 * 0x80_0000 + s2) <==> (t1 * 0x2000 + s1 < t2 * 0x2000
        + s2)) by (nonlinear_arith)
        requires 0 <= s1 < 0x2000, 0 <= s2 < 0x2000;
    assert((t1 * 0x80_0000 + s1 == t2 * 0x80_0000 + s2) <==> (t1 * 0x2000 + s1 == t2 * 0x2000
        + s2)) by (nonlinear_arith)
        requires 0 <= s1 < 0x2000, 0 <= s2 < 0x2000;
}

} // verus!
