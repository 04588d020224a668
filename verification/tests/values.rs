use nautilus_agents::protocol::identity::{IdempotencyKey, IdentityError, RequestId};
use nautilus_agents::protocol::value::{
    ContentDigest, FieldPath, InstrumentId, PositionId, Quantity, TimestampNs, ValueError,
};
use std::cmp::Ordering;

const UUID: &str = "12345678-90ab-4cde-8fab-1234567890ab";

#[test]
fn test_identifiers_boundaries_and_exact_json() {
    let instrument = InstrumentId::new("BTCUSDT.BINANCE").unwrap();
    assert_eq!(instrument.as_str(), "BTCUSDT.BINANCE");
    assert_eq!(InstrumentId::new(""), Err(ValueError::EmptyIdentifier));
    assert_eq!(
        InstrumentId::new(&"x".repeat(256)),
        Err(ValueError::IdentifierTooLong)
    );
    assert!(InstrumentId::new(&"x".repeat(255)).is_ok());
    assert_eq!(
        InstrumentId::new("BTC\nUSDT"),
        Err(ValueError::IdentifierControlCharacter)
    );
    assert_eq!(
        InstrumentId::new("BTC\u{0085}USDT"),
        Err(ValueError::IdentifierControlCharacter)
    );
    assert_eq!(
        PositionId::new("P\u{0085}197"),
        Err(ValueError::IdentifierControlCharacter)
    );
    assert_eq!(
        PositionId::new("position-\u{2713}").unwrap().as_str(),
        "position-\u{2713}"
    );
}

#[test]
fn test_quantity_exact_json_and_ordering() {
    let quantity = Quantity::new("12.345").unwrap();
    assert_eq!(quantity.as_str(), "12.345");
    assert!(quantity > Quantity::new("12.3449").unwrap());
    assert_eq!(
        Quantity::new("1.5").unwrap().compare(&Quantity::new("1.25").unwrap()),
        Ordering::Greater
    );
    assert_eq!(
        Quantity::new("10").unwrap().compare(&Quantity::new("9.99").unwrap()),
        Ordering::Greater
    );
    assert_eq!(
        Quantity::new("0.1").unwrap().compare(&Quantity::new("0.1").unwrap()),
        Ordering::Equal
    );
    assert_eq!(
        Quantity::new("0.0001").unwrap().compare(&Quantity::new("0.001").unwrap()),
        Ordering::Less
    );
}

#[test]
fn test_quantity_rejects_noncanonical_inputs_with_exact_errors() {
    let cases = [
        ("", ValueError::EmptyQuantity),
        ("-1", ValueError::QuantitySign),
        ("+1", ValueError::QuantitySign),
        ("1e3", ValueError::QuantityExponent),
        ("1..2", ValueError::QuantityCharacter),
        ("01", ValueError::QuantityLeadingZero),
        ("1.", ValueError::QuantityEmptyFraction),
        ("1.20", ValueError::QuantityTrailingZero),
        ("0", ValueError::QuantityZero),
        ("0.00000000000000001", ValueError::QuantityPrecision),
    ];
    for (value, expected) in cases {
        assert_eq!(Quantity::new(value), Err(expected), "value: {value}");
    }
    assert_eq!(Quantity::new(".5"), Err(ValueError::QuantityCharacter));
    assert_eq!(Quantity::new("1a"), Err(ValueError::QuantityCharacter));
    assert_eq!(Quantity::new("0.0"), Err(ValueError::QuantityTrailingZero));
    assert!(Quantity::new("0.0000000000000001").is_ok());
}

#[test]
fn test_timestamp_exact_json_and_boundaries() {
    let timestamp = TimestampNs::new(1_712_400_000_000_000_123);
    assert_eq!(TimestampNs::parse("1712400000000000123"), Ok(timestamp));
    assert_eq!(timestamp.as_u64(), 1_712_400_000_000_000_123);
    assert_eq!(TimestampNs::parse("01"), Err(ValueError::TimestampFormat));
    assert_eq!(
        TimestampNs::parse("18446744073709551616"),
        Err(ValueError::TimestampRange)
    );
    assert_eq!(
        TimestampNs::parse("18446744073709551615"),
        Ok(TimestampNs::new(u64::MAX))
    );
    assert_eq!(TimestampNs::parse("0"), Ok(TimestampNs::new(0)));
    assert_eq!(TimestampNs::parse(""), Err(ValueError::EmptyTimestamp));
}

#[test]
fn test_digest_exact_json_and_validation() {
    let digest = ContentDigest::new([0xab; 32]);
    let expected = format!("sha256:{}", "ab".repeat(32));
    assert_eq!(digest.as_str(), expected);
    assert_eq!(ContentDigest::parse(&expected), Ok(digest));
    assert_eq!(
        ContentDigest::parse(&format!("sha256:{}", "AB".repeat(32))),
        Err(ValueError::DigestFormat)
    );
    assert_eq!(
        ContentDigest::parse(&format!("sha256:{}", "ab".repeat(31))),
        Err(ValueError::DigestFormat)
    );
}

#[test]
fn test_field_path_exact_json_and_validation() {
    let path = FieldPath::new("/payload/positions/0/position_id").unwrap();
    assert_eq!(path.as_str(), "/payload/positions/0/position_id");
    assert!(FieldPath::new("").is_ok());
    assert!(FieldPath::new("/a~0b~1c").is_ok());
    assert_eq!(FieldPath::new("payload"), Err(ValueError::FieldPathFormat));
    assert_eq!(FieldPath::new("/a~2b"), Err(ValueError::FieldPathFormat));
    assert_eq!(FieldPath::new("/a~"), Err(ValueError::FieldPathFormat));
}

#[test]
fn test_uuid_identity_rejects_noncanonical_forms() {
    assert_eq!(
        RequestId::parse(&UUID.to_uppercase()),
        Err(IdentityError::InvalidUuid)
    );
    assert_eq!(
        RequestId::parse("1234567890ab4cde8fab1234567890ab"),
        Err(IdentityError::InvalidUuid)
    );
    assert_eq!(RequestId::parse(UUID).unwrap().as_str(), UUID);
    assert_eq!(
        RequestId::parse("{12345678-90ab-4cde-8fab-1234567890ab}"),
        Err(IdentityError::InvalidUuid)
    );
}

#[test]
fn test_fresh_identities_are_canonical_and_distinct() {
    let a = RequestId::new();
    let b = RequestId::new();
    assert_eq!(RequestId::parse(a.as_str()), Ok(a.clone()));
    assert_ne!(a, b);
    assert_eq!(a.as_str().len(), 36);
    assert_eq!(&a.as_str()[14..15], "4");
}

#[test]
fn test_idempotency_key_boundaries_and_exact_json() {
    let key = IdempotencyKey::new("reduce-btc-001").unwrap();
    assert_eq!(key.as_str(), "reduce-btc-001");
    assert_eq!(
        IdempotencyKey::new(""),
        Err(IdentityError::EmptyIdempotencyKey)
    );
    assert_eq!(
        IdempotencyKey::new(&"x".repeat(129)),
        Err(IdentityError::IdempotencyKeyTooLong)
    );
    assert!(IdempotencyKey::new(&"x".repeat(128)).is_ok());
    assert_eq!(
        IdempotencyKey::new("position-\u{2713}"),
        Err(IdentityError::NonAsciiIdempotencyKey)
    );
}

#[test]
fn test_quantity_order_is_antisymmetric_and_matches_text() {
    let texts = ["0.25", "0.5", "1", "1.25", "1.5", "10", "9.99", "0.0001", "12.3449", "12.345"];
    for a in texts {
        for b in texts {
            let qa = Quantity::new(a).unwrap();
            let qb = Quantity::new(b).unwrap();
            assert_eq!(qa.compare(&qb), qb.compare(&qa).reverse(), "{a} {b}");
            assert_eq!(qa.compare(&qb) == Ordering::Equal, a == b, "{a} {b}");
        }
    }
}

#[test]
fn test_quantity_order_is_transitive() {
    let a = Quantity::new("0.999").unwrap();
    let b = Quantity::new("1").unwrap();
    let c = Quantity::new("1.0001").unwrap();
    assert_eq!(a.compare(&b), Ordering::Less);
    assert_eq!(b.compare(&c), Ordering::Less);
    assert_eq!(a.compare(&c), Ordering::Less);
    assert_eq!(a.partial_cmp(&c), Some(Ordering::Less));
}

#[test]
fn test_values_parse_through_from_str() {
    let instrument: InstrumentId = "BTCUSDT.BINANCE".parse().unwrap();
    assert_eq!(instrument.as_str(), "BTCUSDT.BINANCE");
    let quantity: Result<Quantity, ValueError> = "1.20".parse();
    assert_eq!(quantity, Err(ValueError::QuantityTrailingZero));
    let request: RequestId = UUID.parse().unwrap();
    assert_eq!(request.as_str(), UUID);
    let timestamp: TimestampNs = "42".parse().unwrap();
    assert_eq!(timestamp.as_u64(), 42);
}

#[test]
fn test_integer_texts_round_trip_as_quantities_and_timestamps() {
    for v in [1u64, 7, 10, 99, 100, 1_712_400_000_000_000_101, u64::MAX] {
        let text = v.to_string();
        let quantity = Quantity::parse(&text).unwrap();
        assert_eq!(quantity.as_str(), text);
        assert_eq!(Quantity::parse(quantity.as_str()), Ok(quantity));
        assert_eq!(TimestampNs::parse(&text), Ok(TimestampNs::new(v)));
    }
    assert_eq!(TimestampNs::parse("0"), Ok(TimestampNs::new(0)));
    assert_eq!(TimestampNs::parse("007"), Err(ValueError::TimestampFormat));
    assert_eq!(TimestampNs::parse("+1"), Err(ValueError::TimestampFormat));
    assert_eq!(TimestampNs::parse("-1"), Err(ValueError::TimestampFormat));
}

#[test]
fn test_quantity_grammar_cases() {
    for ok in ["1", "10", "0.5", "0.0000000000000001", "123.456", "9"] {
        assert!(Quantity::parse(ok).is_ok(), "{ok}");
    }
    assert_eq!(Quantity::parse(".5"), Err(ValueError::QuantityCharacter));
    assert_eq!(Quantity::parse("0.0"), Err(ValueError::QuantityTrailingZero));
    assert_eq!(Quantity::parse("00.5"), Err(ValueError::QuantityLeadingZero));
    assert_eq!(Quantity::parse("1.5.0"), Err(ValueError::QuantityCharacter));
    assert_eq!(Quantity::parse("1E3"), Err(ValueError::QuantityExponent));
}
