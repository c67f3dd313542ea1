use num_bigint::BigUint;
use snapshot_hash::snapshot::{SnapshotHash, SnapshotHashParseError, SnapshotHashScheme};
use std::str::FromStr;

#[test]
fn display_includes_scheme_prefix() {
    let legacy = SnapshotHash::from_bytes(&[0xAB; 32]);
    assert!(legacy.to_string().starts_with("v1:"));

    let canonical = SnapshotHash::from_canonical_bytes(&[0xAB; 32]);
    assert!(canonical.to_string().starts_with("v2:"));
}

#[test]
fn legacy_and_canonical_with_same_bytes_are_distinguishable_by_scheme() {
    let bytes = [0x42u8; 32];
    let legacy = SnapshotHash::from_bytes(&bytes);
    let canonical = SnapshotHash::from_canonical_bytes(&bytes);

    assert_eq!(legacy.as_bytes(), canonical.as_bytes());
    assert_eq!(legacy.scheme(), SnapshotHashScheme::LegacyToml);
    assert_eq!(canonical.scheme(), SnapshotHashScheme::Canonical);
    assert_ne!(legacy, canonical);
    assert_ne!(legacy.to_string(), canonical.to_string());
}

#[test]
fn from_str_round_trip_for_both_schemes() {
    for scheme in [
        SnapshotHashScheme::LegacyToml,
        SnapshotHashScheme::Canonical,
    ] {
        let original = SnapshotHash::from_bytes_with_scheme(&[0x12; 32], scheme);
        let s = original.to_string();
        let parsed = SnapshotHash::from_str(&s).expect("parse back");
        assert_eq!(parsed, original, "round-trip for {scheme:?}");
        assert_eq!(parsed.scheme(), scheme);
    }
}

#[test]
fn unprefixed_decimal_parses_as_legacy() {
    let bytes = [0xCD; 32];
    let big_int = BigUint::from_bytes_be(&bytes);
    let raw_decimal = big_int.to_string();

    let parsed = SnapshotHash::from_str(&raw_decimal).expect("legacy decimal parses");
    assert_eq!(parsed.scheme(), SnapshotHashScheme::LegacyToml);
    assert_eq!(parsed.as_bytes(), &bytes);
}

#[test]
fn serde_round_trip_preserves_scheme() {
    // The wire form of a hash is its prefixed text, serialised as a JSON string.
    let canonical = SnapshotHash::from_canonical_bytes(&[0x88; 32]);
    let json = serde_json::to_string(&canonical.to_string()).expect("serialize");
    assert!(json.contains("v2:"));
    let text: String = serde_json::from_str(&json).expect("deserialize");
    let back = SnapshotHash::from_str(&text).expect("deserialize");
    assert_eq!(back, canonical);
    assert_eq!(back.scheme(), SnapshotHashScheme::Canonical);
}

#[test]
fn prefixes_of_schemes() {
    assert_eq!(SnapshotHashScheme::LegacyToml.prefix(), "v1");
    assert_eq!(SnapshotHashScheme::Canonical.prefix(), "v2");
}

fn padded(tail: &[u8]) -> Vec<u8> {
    let mut v = vec![0u8; 32 - tail.len()];
    v.extend_from_slice(tail);
    v
}

#[test]
fn bytes_are_256_bits_wide() {
    let h = SnapshotHash::from_bytes(&[0x00, 0x00, 0x05]);
    assert_eq!(h.as_bytes(), padded(&[0x05]).as_slice());
    assert_eq!(h.to_decimal_string(), "5");
    assert_eq!(h.to_string(), "v1:5");

    let h = SnapshotHash::from_bytes(&[0x01, 0x00]);
    assert_eq!(h.as_bytes(), padded(&[0x01, 0x00]).as_slice());
    assert_eq!(h.to_decimal_string(), "256");
    assert_eq!(h.to_hex_string(), format!("{}0100", "0".repeat(60)));
}

#[test]
fn thirty_two_input_bytes_come_back_whole() {
    let zeros = [0u8; 32];
    let h = SnapshotHash::from_bytes(&zeros);
    assert_eq!(h.as_bytes(), &zeros);
    assert_eq!(h.to_decimal_string(), "0");

    let mut leading = [0x77u8; 32];
    leading[0] = 0;
    leading[1] = 0;
    let h = SnapshotHash::from_canonical_bytes(&leading);
    assert_eq!(h.as_bytes(), &leading);
    assert_eq!(h.as_bytes().len(), 32);
}

#[test]
fn longer_values_keep_their_shortest_bytes() {
    let mut big = vec![0x00u8, 0x01];
    big.extend_from_slice(&[0u8; 32]);
    let h = SnapshotHash::from_bytes(&big);
    assert_eq!(h.as_bytes(), &big[1..]);
    assert_eq!(h.as_bytes().len(), 33);
}

#[test]
fn empty_and_zero_bytes_are_zero() {
    let h = SnapshotHash::from_bytes(&[]);
    assert_eq!(h.as_bytes(), &[0u8; 32]);
    assert_eq!(h.to_decimal_string(), "0");
    let z = SnapshotHash::from_canonical_bytes(&[0x00, 0x00]);
    assert_eq!(z.as_bytes(), &[0u8; 32]);
    assert_eq!(z.to_string(), "v2:0");
}

#[test]
fn hex_is_lowercase_without_prefix() {
    let h = SnapshotHash::from_canonical_bytes(&[0xAB; 32]);
    assert_eq!(h.to_hex_string(), "ab".repeat(32));
    let h = SnapshotHash::from_bytes(&[0x0f, 0xa0]);
    assert_eq!(h.to_hex_string(), format!("{}0fa0", "0".repeat(60)));
}

#[test]
fn hex_decodes_back_to_the_bytes() {
    let h = SnapshotHash::from_bytes(&[0x12, 0x9a, 0xff]);
    let decoded = hex::decode(h.to_hex_string()).unwrap();
    assert_eq!(decoded, h.as_bytes().to_vec());
    assert_eq!(
        SnapshotHash::from_bytes(&[0x12, 0x9a]).to_hex_string(),
        SnapshotHash::from_canonical_bytes(&[0x12, 0x9a]).to_hex_string()
    );
}

#[test]
fn decimal_of_full_width_hash() {
    let h = SnapshotHash::from_bytes(&[0xFF; 32]);
    assert_eq!(
        h.to_decimal_string(),
        "115792089237316195423570985008687907853269984665640564039457584007913129639935"
    );
}

#[test]
fn parse_accepts_prefixes_and_legacy_form() {
    let h = SnapshotHash::parse("v1:256").unwrap();
    assert_eq!(h.scheme(), SnapshotHashScheme::LegacyToml);
    assert_eq!(h.as_bytes(), padded(&[0x01, 0x00]).as_slice());
    let h = SnapshotHash::from_str("v2:258").unwrap();
    assert_eq!(h.scheme(), SnapshotHashScheme::Canonical);
    assert_eq!(h.as_bytes(), padded(&[0x01, 0x02]).as_slice());
    assert_eq!(h.to_decimal_string(), "258");
    let h = SnapshotHash::parse("v2:256").unwrap();
    assert_eq!(h.scheme(), SnapshotHashScheme::Canonical);
    assert_eq!(h.to_decimal_string(), "256");
    let h = SnapshotHash::parse("256").unwrap();
    assert_eq!(h.scheme(), SnapshotHashScheme::LegacyToml);
    assert_eq!(h.to_string(), "v1:256");
}

#[test]
fn parse_follows_decimal_literal_rules() {
    assert_eq!(SnapshotHash::parse("+42").unwrap().to_decimal_string(), "42");
    assert_eq!(SnapshotHash::parse("v2:1_000").unwrap().to_decimal_string(), "1000");
    let g = SnapshotHash::from_str("v1:007").unwrap();
    assert_eq!(g, SnapshotHash::from_biguint(BigUint::from(7u32)));
    assert_eq!(g.to_string(), "v1:7");
    assert_eq!(SnapshotHash::parse(""), Err(SnapshotHashParseError::Empty));
    assert_eq!(SnapshotHash::parse("v1:"), Err(SnapshotHashParseError::Empty));
    assert_eq!(SnapshotHash::parse("v2:+"), Err(SnapshotHashParseError::Empty));
    assert_eq!(SnapshotHash::parse("++1"), Err(SnapshotHashParseError::InvalidDigit));
    assert_eq!(SnapshotHash::parse("_1"), Err(SnapshotHashParseError::InvalidDigit));
    assert_eq!(SnapshotHash::parse("v3:12"), Err(SnapshotHashParseError::InvalidDigit));
    assert_eq!(SnapshotHash::parse("v1:12a"), Err(SnapshotHashParseError::InvalidDigit));
    assert_eq!(SnapshotHash::parse("V1:12"), Err(SnapshotHashParseError::InvalidDigit));
}

#[test]
fn parse_error_messages() {
    assert_eq!(
        SnapshotHashParseError::Empty.message(),
        "cannot parse integer from empty string"
    );
    assert_eq!(
        SnapshotHashParseError::InvalidDigit.message(),
        "invalid digit found in string"
    );
}

#[test]
fn from_biguint_keeps_value_and_scheme() {
    let n = BigUint::from(256u32);
    let h = SnapshotHash::from_biguint(n.clone());
    assert_eq!(h.scheme(), SnapshotHashScheme::LegacyToml);
    assert_eq!(h.to_decimal_string(), n.to_string());
    assert_eq!(h.as_bytes(), padded(&n.to_bytes_be()).as_slice());
    let c = SnapshotHash::from_biguint_canonical(n.clone());
    assert_eq!(c.scheme(), SnapshotHashScheme::Canonical);
    assert_eq!(c.to_decimal_string(), "256");
    assert_ne!(c, h);
    let h = SnapshotHash::from_biguint_with_scheme(BigUint::from(0u32), SnapshotHashScheme::Canonical);
    assert_eq!(h.as_bytes(), &[0u8; 32]);
    assert_eq!(h.to_string(), "v2:0");
}

#[test]
fn from_str_agrees_with_biguint_constructors() {
    let n = BigUint::from_bytes_be(&[0x5a; 32]);
    let d = n.to_string();
    assert_eq!(SnapshotHash::from_str(&format!("v1:{d}")), Ok(SnapshotHash::from_biguint(n.clone())));
    assert_eq!(
        SnapshotHash::from_str(&format!("v2:{d}")),
        Ok(SnapshotHash::from_biguint_canonical(n.clone()))
    );
    assert_eq!(SnapshotHash::from_str(&d), Ok(SnapshotHash::from_biguint(n)));
}

#[test]
fn new_test_is_blake3_of_empty_input() {
    let h = SnapshotHash::new_test();
    assert_eq!(h.scheme(), SnapshotHashScheme::LegacyToml);
    assert_eq!(
        h.to_hex_string(),
        "af1349b9f5f9a1a6a0404dea36dcc9499bcb25c9adc112b7cc9a93cae41f3262"
    );
    let digest = blake3::hash(&[]);
    assert_eq!(h, SnapshotHash::from_biguint(BigUint::from_bytes_be(digest.as_bytes())));
    assert_eq!(SnapshotHash::default(), h);
    assert_eq!(SnapshotHash::new_test(), SnapshotHash::new_test());
}

#[test]
fn clone_is_equal() {
    let h = SnapshotHash::from_canonical_bytes(&[0x33; 32]);
    let c = h.clone();
    assert_eq!(c, h);
    assert_eq!(c.to_string(), h.to_string());
}

#[test]
fn bytes_round_trip_through_hash() {
    let h = SnapshotHash::from_canonical_bytes(&[0x12, 0x34, 0x56]);
    let again = SnapshotHash::from_canonical_bytes(h.as_bytes());
    assert_eq!(again, h);
}
