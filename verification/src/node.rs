//! Choosing a node id, and the random numbers behind the choices.
use vstd::prelude::*;
use crate::layout::MAX_NODE_ID;
use crate::text::{parse_radix, parse_u64_radix};

verus! {

/// A random 64-bit number from the thread's generator (`ax_rnd::u64`).
/// Nothing is stated of it: it is random.
#[verifier::external_body]
pub(crate) fn thread_local_entropy() -> u64 {
    ax_rnd::u64()
}

/// The node id that a configured value names: a decimal number (an optional
/// `+`, then digits) of at most 1023.
pub open spec fn spec_configured_node(s: Seq<char>) -> Option<u16> {
    match parse_radix(s, 10) {
        Some(v) => if v <= MAX_NODE_ID {
            Some(v as u16)
        } else {
            None
        },
        None => None,
    }
}

/// Reads a configured node id (the value of `AX_ID_NODE`), as
/// `spec_configured_node` says.
pub fn parse_node_id(s: &str) -> (r: Option<u16>)
    ensures
        r == spec_configured_node(s@),
{
    match parse_u64_radix(s, 10) {
        Some(v) => if v <= 1023 {
            Some(v as u16)
        } else {
            None
        },
        None => None,
    }
}

/// The node id that a random number picks: its low 10 bits.
pub open spec fn entropy_node(raw: u64) -> int {
    raw as int % 1024
}

/// The node id that a random number picks (see `entropy_node`).
pub fn node_from_entropy(raw: u64) -> (r: u16)
    ensures
        r == entropy_node(raw),
{
    let x = raw & 0x3ffu64;
    assert(x == raw % 1024) by (bit_vector)
        requires x == raw & 0x3ffu64;
    x as u16
}

/// Chooses a node id: the configured one when `configured` names a valid one,
/// otherwise the node that a random number drawn for it picks.
pub fn resolve_node_id(configured: Option<&str>) -> (r: u16)
    ensures
        r <= MAX_NODE_ID,
        configured matches Some(s) ==> (spec_configured_node(s@) is Some ==> Some(r)
            == spec_configured_node(s@)),
        !(configured matches Some(s) && spec_configured_node(s@) is Some) ==> exists|raw: u64|
            r == #[trigger] entropy_node(raw),
{
    if let Some(s) = configured {
        if let Some(id) = parse_node_id(s) {
            return id;
        }
    }
    let raw = thread_local_entropy();
    let r = node_from_entropy(raw);
    assert(r == entropy_node(raw));
    r
}

} // verus!
