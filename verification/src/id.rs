//! The identifier type: its fields, its text form and its parsing.
use vstd::prelude::*;
use crate::error::IdError;
use crate::layout::{
    CUSTOM_EPOCH_MS, TIMESTAMP_SHIFT, NODE_SHIFT, TIMESTAMP_MASK, NODE_MASK, SEQUENCE_MASK,
    MAX_SEQUENCE, ts_field, node_field, seq_field, compose, lemma_field_bits, lemma_compose_bits,
};
use crate::text::{
    chars_of, trim_chars, trim, trim_start, trim_end, all_digits, parse_radix, parse_radix_from,
    char_digit_value, digit_value, hex_digits, push_hex_digits, lemma_hex_digits_value,
};

verus! {

/// A 64-bit identifier: bit 63 is zero, bits 62..23 hold the milliseconds
/// since the custom epoch, bits 22..13 the node id, bits 12..0 the sequence.
#[derive(Debug, Clone, Copy, PartialEq, Eq, Structural, Ord, Hash)]
pub struct Id(pub u64);

/// The text form of an identifier: 16 lowercase hexadecimal digits.
pub open spec fn id_text(raw: u64) -> Seq<char> {
    hex_digits(raw as nat, 16)
}

/// What parsing the text `s` gives: after trimming whitespace, a `0x` or `0X`
/// prefix introduces hexadecimal digits; exactly 16 hexadecimal digits are
/// read in hexadecimal; otherwise decimal is tried first, then hexadecimal.
pub open spec fn spec_parse_id(s: Seq<char>) -> Result<Id, IdError> {
    let t = trim(s);
    let read = |v: Option<u64>|
        match v {
            Some(x) => Ok(Id(x)),
            None => Err(IdError::InvalidFormat),
        };
    if t.len() >= 2 && t[0] == '0' && (t[1] == 'x' || t[1] == 'X') {
        read(parse_radix(t.skip(2), 16))
    } else if t.len() == 16 && all_digits(t, 16) {
        read(parse_radix(t, 16))
    } else if parse_radix(t, 10) is Some {
        read(parse_radix(t, 10))
    } else {
        read(parse_radix(t, 16))
    }
}

/// Whether every character of `t` is a hexadecimal digit.
fn all_hex(t: &Vec<char>) -> (r: bool)
    ensures
        r == all_digits(t@, 16),
{
    let mut i: usize = 0;
    while i < t.len()
        invariant
            i <= t@.len(),
            forall|j: int| 0 <= j < i ==> #[trigger] digit_value(t@[j]) < 16,
        decreases t@.len() - i,
    {
        if char_digit_value(t[i]) >= 16 {
            return false;
        }
        i = i + 1;
    }
    true
}

impl Id {
    /// Milliseconds since the custom epoch.
    pub fn timestamp_ms(&self) -> (r: u64)
        ensures
            r == ts_field(self.0),
    {
        proof {
            lemma_field_bits(self.0);
        }
        (self.0 >> TIMESTAMP_SHIFT) & TIMESTAMP_MASK
    }

    /// The node that generated the identifier.
    pub fn node_id(&self) -> (r: u16)
        ensures
            r == node_field(self.0),
    {
        proof {
            lemma_field_bits(self.0);
        }
        ((self.0 >> NODE_SHIFT) & NODE_MASK) as u16
    }

    /// The sequence number within its millisecond.
    pub fn raw_sequence(&self) -> (r: u16)
        ensures
            r == seq_field(self.0),
    {
        proof {
            lemma_field_bits(self.0);
        }
        (self.0 & SEQUENCE_MASK) as u16
    }

    /// The point in time the identifier was generated at.
    pub fn datetime(&self) -> (r: std::time::SystemTime)
        ensures
            r == crate::clock::system_time_at((CUSTOM_EPOCH_MS + ts_field(self.0)) as u64),
    {
        let ms = CUSTOM_EPOCH_MS + self.timestamp_ms();
        crate::clock::unix_time_from_millis(ms)
    }

    /// The identifier with timestamp `ts`, node `node` and sequence `seq`.
    pub fn from_parts(ts: u64, node: u16, seq: u64) -> (r: Id)
        requires
            node <= crate::layout::MAX_NODE_ID,
            seq <= MAX_SEQUENCE,
        ensures
            r.0 == compose(ts as int, node as int, seq as int),
    {
        let n = node as u64;
        proof {
            lemma_compose_bits(ts, n, seq);
        }
        Id((ts << TIMESTAMP_SHIFT) | (n << NODE_SHIFT) | seq)
    }

    /// The text form: 16 lowercase hexadecimal digits.
    pub fn to_string(&self) -> (r: String)
        ensures
            r@ == id_text(self.0),
    {
        let mut s = String::new();
        push_hex_digits(&mut s, self.0, 16);
        s
    }

    /// Parses an identifier from text (see `spec_parse_id`).
    pub fn from_str(s: &str) -> (r: Result<Id, IdError>)
        ensures
            r == spec_parse_id(s@),
    {
        let all = chars_of(s);
        let t = trim_chars(&all);
        let n = t.len();
        assert(t@.skip(0) =~= t@);
        if n >= 2 && t[0] == '0' && (t[1] == 'x' || t[1] == 'X') {
            return match parse_radix_from(&t, 2, 16) {
                Some(v) => Ok(Id(v)),
                None => Err(IdError::InvalidFormat),
            };
        }
        if n == 16 && all_hex(&t) {
            return match parse_radix_from(&t, 0, 16) {
                Some(v) => Ok(Id(v)),
                None => Err(IdError::InvalidFormat),
            };
        }
        if let Some(v) = parse_radix_from(&t, 0, 10) {
            return Ok(Id(v));
        }
        match parse_radix_from(&t, 0, 16) {
            Some(v) => Ok(Id(v)),
            None => Err(IdError::InvalidFormat),
        }
    }
}

/// Sixteen hexadecimal digits span exactly the 64-bit numbers.
pub proof fn lemma_sixteen_hex_digits_span_u64()
    ensures
        vstd::arithmetic::power::pow(16, 16) == 0x1_0000_0000_0000_0000,
{
    vstd::arithmetic::power2::lemma2_to64();
    vstd::arithmetic::power2::lemma2_to64_rest();
    vstd::arithmetic::power2::lemma_pow2(4);
    vstd::arithmetic::power2::lemma_pow2(64);
    vstd::arithmetic::power::lemma_pow_multiplies(2, 4, 16);
}

/// Reading back the text form of an identifier gives the identifier.
pub proof fn lemma_text_roundtrip(id: Id)
    ensures
        spec_parse_id(id_text(id.0)) == Ok::<Id, IdError>(id),
{
    let h = id_text(id.0);
    lemma_hex_digits_value(id.0 as nat, 16);
    lemma_sixteen_hex_digits_span_u64();
    assert(h.len() > 0 && !crate::text::is_whitespace(h[0]));
    assert(trim_start(h) == h);
    assert(!crate::text::is_whitespace(h.last()));
    assert(trim_end(h) == h);
    assert(h[0] != '+');
    assert(h[1] != 'x' && h[1] != 'X');
}

/// Whitespace around the text form of an identifier, a line's carriage
/// return and line feed included, does not change what it parses to.
pub proof fn lemma_padded_text_roundtrip(id: Id, before: Seq<char>, after: Seq<char>)
    requires
        forall|i: int| 0 <= i < before.len() ==> #[trigger] crate::text::is_whitespace(before[i]),
        forall|i: int| 0 <= i < after.len() ==> #[trigger] crate::text::is_whitespace(after[i]),
    ensures
        spec_parse_id(before + id_text(id.0) + after) == Ok::<Id, IdError>(id),
{
    let h = id_text(id.0);
    lemma_text_roundtrip(id);
    lemma_hex_digits_value(id.0 as nat, 16);
    crate::text::lemma_trim_start_drops_prefix(before, h + after);
    assert(before + h + after =~= before + (h + after));
    assert(!crate::text::is_whitespace(h[0]));
    assert((h + after)[0] == h[0]);
    assert(trim_start(h + after) == h + after);
    crate::text::lemma_trim_end_drops_suffix(h, after);
    assert(!crate::text::is_whitespace(h.last()));
    assert(trim_end(h) == h);
    assert(trim(before + h + after) == h);
    assert(trim_start(h) == h);
}

/// A carriage return and line feed are whitespace, so a text form read from
/// a CRLF-terminated line parses to its identifier.
pub proof fn lemma_crlf_line_roundtrip(id: Id)
    ensures
        spec_parse_id(id_text(id.0) + seq!['\r', '\n']) == Ok::<Id, IdError>(id),
{
    let w = seq!['\r', '\n'];
    assert(crate::text::is_whitespace('\r') && crate::text::is_whitespace('\n'));
    lemma_padded_text_roundtrip(id, Seq::empty(), w);
    assert(Seq::<char>::empty() + id_text(id.0) + w =~= id_text(id.0) + w);
}

impl From<u64> for Id {
    fn from(value: u64) -> (r: Id) {
        Id(value)
    }
}

impl vstd::std_specs::convert::FromSpecImpl<u64> for Id {
    open spec fn obeys_from_spec() -> bool {
        true
    }

    open spec fn from_spec(v: u64) -> Id {
        Id(v)
    }
}

impl From<Id> for u64 {
    fn from(id: Id) -> (r: u64) {
        id.0
    }
}

impl vstd::std_specs::convert::FromSpecImpl<Id> for u64 {
    open spec fn obeys_from_spec() -> bool {
        true
    }

    open spec fn from_spec(v: Id) -> u64 {
        v.0
    }
}

/// Converting between an identifier and `u64` loses nothing: an identifier
/// converts to its raw value, a raw value to the identifier that holds it,
/// and each conversion undoes the other.
pub proof fn lemma_raw_conversions(id: Id, raw: u64)
    ensures
        <u64 as vstd::std_specs::convert::FromSpec<Id>>::obeys_from_spec(),
        <Id as vstd::std_specs::convert::FromSpec<u64>>::obeys_from_spec(),
        <u64 as vstd::std_specs::convert::FromSpec<Id>>::from_spec(id) == id.0,
        <Id as vstd::std_specs::convert::FromSpec<u64>>::from_spec(raw).0 == raw,
        <Id as vstd::std_specs::convert::FromSpec<u64>>::from_spec(
            <u64 as vstd::std_specs::convert::FromSpec<Id>>::from_spec(id),
        ) == id,
{
}

impl core::str::FromStr for Id {
    type Err = IdError;

    fn from_str(s: &str) -> (r: Result<Id, IdError>)
        ensures
            r == spec_parse_id(s@),
    {
        Id::from_str(s)
    }
}

} // verus!
