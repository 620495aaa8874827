use xrwrangle::decode::{decode_enum_value, ENUM_VALUE_BASE};

#[test]
fn decode_splits_id_and_offset() {
    assert_eq!(decode_enum_value(1_000_007_005), (7, 5));
    assert_eq!(decode_enum_value(1_000_000_000), (0, 0));
    assert_eq!(decode_enum_value(1_000_000_999), (0, 999));
    assert_eq!(decode_enum_value(1_000_999_999), (999, 999));
}

#[test]
fn decode_then_encode_round_trips() {
    for v in [
        1_000_000_000i64,
        1_000_007_005,
        1_000_052_001,
        1_999_999_999,
        i64::MAX,
    ] {
        let (ext, off) = decode_enum_value(v);
        assert_eq!(ext * 1000 + off + ENUM_VALUE_BASE, v);
    }
}

#[test]
fn decode_below_base_truncates_toward_zero() {
    assert_eq!(decode_enum_value(999_999_999), (0, -1));
    assert_eq!(decode_enum_value(999_999_000), (-1, 0));
    assert_eq!(decode_enum_value(0), (-1_000_000, 0));
    assert_eq!(decode_enum_value(i64::MIN), (-9223372037854775, -808));
}
