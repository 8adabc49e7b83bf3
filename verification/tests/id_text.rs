use ax_id::Id;
use ax_id::IdError;

#[test]
fn display_hex() {
    let id = Id(0x08b53edc41582000);
    assert_eq!(id.to_string(), "08b53edc41582000");
}

#[test]
fn from_str_hex() {
    let id: Id = "08b53edc41582000".parse().unwrap();
    assert_eq!(id.0, 0x08b53edc41582000);
}

#[test]
fn from_str_decimal() {
    let id: Id = "123456789012345".parse().unwrap();
    assert_eq!(id.0, 123456789012345);
}

#[test]
fn parse_display_roundtrip() {
    let original = Id(0xdeadbeefcafe0000);
    let parsed: Id = original.to_string().parse().unwrap();
    assert_eq!(original, parsed);
}

#[test]
fn lexicographic_ordering_matches_raw() {
    let a = Id(0x1000000000000000);
    let b = Id(0x2000000000000000);
    assert_eq!(a.0 < b.0, a < b);
    assert_eq!(a.0.cmp(&b.0), a.cmp(&b));
}

#[test]
fn bit_extraction_consistency() {
    let id = Id((1234 << 23) | (42 << 13) | 7);
    assert_eq!(id.timestamp_ms(), 1234);
    assert_eq!(id.node_id(), 42);
    assert_eq!(id.raw_sequence(), 7);
}

#[test]
fn parse_display_roundtrip_all_digit_hex() {
    let cases = [
        Id(0x0000_0000_1000_0000),
        Id(0x1234_5678_9012_3456),
        Id(0x0123_4567_8901_2345),
        Id(0),
    ];
    for original in cases {
        let s = original.to_string();
        let parsed: Id = s.parse().unwrap();
        assert_eq!(original, parsed, "roundtrip failed for {}", s);
    }
}

#[test]
fn display_pads_to_sixteen_digits() {
    assert_eq!(Id(0).to_string(), "0000000000000000");
    assert_eq!(Id(42).to_string(), "000000000000002a");
    assert_eq!(Id(u64::MAX).to_string(), "ffffffffffffffff");
}

#[test]
fn all_digit_text_of_sixteen_reads_as_hex() {
    // Sixteen decimal digits are read in hexadecimal, not decimal.
    let id = Id::from_str("0000000000000010").unwrap();
    assert_eq!(id.0, 16);
}

#[test]
fn parse_prefixed_hex() {
    assert_eq!(Id::from_str("0x1F"), Ok(Id(31)));
    assert_eq!(Id::from_str("0XfF"), Ok(Id(255)));
    assert_eq!(Id::from_str("0x"), Err(IdError::InvalidFormat));
    assert_eq!(Id::from_str("0xg1"), Err(IdError::InvalidFormat));
    // A prefixed number that does not fit is refused, not read otherwise.
    assert_eq!(Id::from_str("0x10000000000000000"), Err(IdError::InvalidFormat));
}

#[test]
fn parse_trims_whitespace() {
    assert_eq!(Id::from_str("  42\n"), Ok(Id(42)));
    assert_eq!(Id::from_str("\u{3000}7\u{a0}"), Ok(Id(7)));
}

#[test]
fn parse_decimal_then_hex() {
    assert_eq!(Id::from_str("+15"), Ok(Id(15)));
    assert_eq!(Id::from_str("ab"), Ok(Id(0xab)));
    // Decimal overflow falls back to hexadecimal, which overflows too.
    assert_eq!(Id::from_str("99999999999999999999"), Err(IdError::InvalidFormat));
    assert_eq!(Id::from_str("18446744073709551615"), Ok(Id(u64::MAX)));
}

#[test]
fn parse_rejects_garbage() {
    assert_eq!(Id::from_str(""), Err(IdError::InvalidFormat));
    assert_eq!(Id::from_str("   "), Err(IdError::InvalidFormat));
    assert_eq!(Id::from_str("-1"), Err(IdError::InvalidFormat));
    assert_eq!(Id::from_str("+"), Err(IdError::InvalidFormat));
    assert_eq!(Id::from_str("12 34"), Err(IdError::InvalidFormat));
    assert_eq!(Id::from_str("xyz"), Err(IdError::InvalidFormat));
}

#[test]
fn conversions_with_u64() {
    let id = Id::from(7u64);
    assert_eq!(id, Id(7));
    let raw: u64 = u64::from(Id(9));
    assert_eq!(raw, 9);
}

#[test]
fn fields_of_top_values() {
    let id = Id(u64::MAX);
    assert_eq!(id.timestamp_ms(), 0xff_ffff_ffff);
    assert_eq!(id.node_id(), 1023);
    assert_eq!(id.raw_sequence(), 8191);
}

#[test]
fn recompose_from_fields() {
    let raw = 0x08b5_3edc_4158_2abcu64;
    let id = Id(raw);
    let back = Id::from_parts(id.timestamp_ms(), id.node_id(), id.raw_sequence() as u64);
    assert_eq!(back, id);
    let top = Id(1u64 << 63);
    let back_top = Id::from_parts(top.timestamp_ms(), top.node_id(), top.raw_sequence() as u64);
    assert_ne!(back_top, top);
}

#[test]
fn from_parts_wraps_timestamp() {
    let id = Id::from_parts((1u64 << 40) + 5, 3, 9);
    assert_eq!(id.timestamp_ms(), 5);
    assert_eq!(id.node_id(), 3);
    assert_eq!(id.raw_sequence(), 9);
}

#[test]
fn datetime_is_epoch_plus_timestamp() {
    let id = Id(1234 << 23);
    let expected = std::time::UNIX_EPOCH + std::time::Duration::from_millis(1_704_067_200_000 + 1234);
    assert_eq!(id.datetime(), expected);
}

#[test]
fn hex_digit_codes() {
    assert_eq!(ax_id::text::hex_digit(0), b'0');
    assert_eq!(ax_id::text::hex_digit(9), b'9');
    assert_eq!(ax_id::text::hex_digit(10), b'a');
    assert_eq!(ax_id::text::hex_digit(15), b'f');
}

#[test]
fn text_sorts_as_ids() {
    let ids = [Id(0), Id(9), Id(10), Id(0xff), Id(0x100), Id(0x08b53edc41582000), Id(u64::MAX)];
    for a in ids {
        for b in ids {
            assert_eq!(a.to_string() < b.to_string(), a.0 < b.0);
            assert_eq!(a.to_string() < b.to_string(), a < b);
        }
    }
}
