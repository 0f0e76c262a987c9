use planwire::error::TranslateError;
use planwire::literal::{
    decode_literal, encode_literal, render_decimal, EngineLiteral, PLitVal,
};
use planwire::types::TimeUnit;

fn roundtrip_exact(l: EngineLiteral) {
    let (p, lossy) = encode_literal(&l).expect("literal must encode");
    assert!(!lossy, "expected an exact encoding");
    let back = decode_literal(&p).expect("encoded literal must decode");
    assert_eq!(back, l);
}

#[test]
fn scalar_values_roundtrip() {
    roundtrip_exact(EngineLiteral::Bool(Some(true)));
    roundtrip_exact(EngineLiteral::Int8(Some(-7)));
    roundtrip_exact(EngineLiteral::Int16(Some(300)));
    roundtrip_exact(EngineLiteral::Int32(Some(-70000)));
    roundtrip_exact(EngineLiteral::Int64(Some(1 << 40)));
    roundtrip_exact(EngineLiteral::UInt8(Some(255)));
    roundtrip_exact(EngineLiteral::UInt16(Some(65535)));
    roundtrip_exact(EngineLiteral::UInt32(Some(4294967295)));
    roundtrip_exact(EngineLiteral::UInt64(Some(u64::MAX)));
    roundtrip_exact(EngineLiteral::Float32 { bits: Some(0x4048F5C3) });
    roundtrip_exact(EngineLiteral::Float64 { bits: Some(0x400921FB54442D18) });
    roundtrip_exact(EngineLiteral::Date(Some(19000)));
    roundtrip_exact(EngineLiteral::Utf8(Some(String::from("hello"))));
    roundtrip_exact(EngineLiteral::LargeUtf8(Some(String::from("big"))));
    roundtrip_exact(EngineLiteral::Utf8View(Some(String::from("view"))));
    roundtrip_exact(EngineLiteral::Binary(Some(vec![1, 2, 3])));
    roundtrip_exact(EngineLiteral::LargeBinary(Some(vec![])));
    roundtrip_exact(EngineLiteral::BinaryView(Some(vec![255, 0])));
    roundtrip_exact(EngineLiteral::FixedBinary { width: 2, value: Some(vec![9, 8]) });
    roundtrip_exact(EngineLiteral::Decimal { value: Some(-12345), precision: 10, scale: 2 });
    roundtrip_exact(EngineLiteral::Timestamp {
        unit: TimeUnit::Microsecond,
        zone: Some(String::from("UTC")),
        value: Some(1_600_000_000_000_000),
    });
    roundtrip_exact(EngineLiteral::Timestamp {
        unit: TimeUnit::Second,
        zone: None,
        value: Some(1_600_000_000),
    });
}

#[test]
fn typed_nulls_roundtrip_to_the_same_type() {
    // Every supported literal type: NULL in, the same type's NULL out.
    let nulls = vec![
        EngineLiteral::Bool(None),
        EngineLiteral::Int8(None),
        EngineLiteral::Int16(None),
        EngineLiteral::Int32(None),
        EngineLiteral::Int64(None),
        EngineLiteral::UInt8(None),
        EngineLiteral::UInt16(None),
        EngineLiteral::UInt32(None),
        EngineLiteral::UInt64(None),
        EngineLiteral::Float32 { bits: None },
        EngineLiteral::Float64 { bits: None },
        EngineLiteral::Decimal { value: None, precision: 12, scale: 3 },
        EngineLiteral::Date(None),
        EngineLiteral::Timestamp { unit: TimeUnit::Nanosecond, zone: None, value: None },
        EngineLiteral::Timestamp {
            unit: TimeUnit::Millisecond,
            zone: Some(String::from("Europe/Berlin")),
            value: None,
        },
        EngineLiteral::Utf8(None),
        EngineLiteral::LargeUtf8(None),
        EngineLiteral::Utf8View(None),
        EngineLiteral::Binary(None),
        EngineLiteral::LargeBinary(None),
        EngineLiteral::BinaryView(None),
        EngineLiteral::FixedBinary { width: 4, value: None },
    ];
    for l in nulls {
        roundtrip_exact(l);
    }
}

#[test]
fn null_never_becomes_another_types_null() {
    let (p, _) = encode_literal(&EngineLiteral::Utf8(None)).unwrap();
    let back = decode_literal(&p).unwrap();
    assert_eq!(back, EngineLiteral::Utf8(None));
    assert_ne!(back, EngineLiteral::LargeUtf8(None));
    assert_ne!(back, EngineLiteral::Binary(None));
}

#[test]
fn duration_literal_is_unsupported() {
    let l = EngineLiteral::Duration { unit: TimeUnit::Second, value: Some(5) };
    assert_eq!(encode_literal(&l), Err(TranslateError::UnsupportedType));
}

#[test]
fn wide_decimal_falls_back_to_string_cast() {
    let l = EngineLiteral::Decimal { value: Some(-1234567), precision: 60, scale: 4 };
    let (p, lossy) = encode_literal(&l).unwrap();
    assert!(lossy, "the string-cast fallback must be flagged");
    assert!(!p.nullable);
    assert_eq!(p.val, PLitVal::Str(String::from("-1234567")));
    // The lossy value decodes as the string it was cast to.
    let back = decode_literal(&p).unwrap();
    assert_eq!(back, EngineLiteral::Utf8(Some(String::from("-1234567"))));
}

#[test]
fn wide_decimal_null_falls_back_flagged() {
    let l = EngineLiteral::Decimal { value: None, precision: 40, scale: 0 };
    let (p, lossy) = encode_literal(&l).unwrap();
    assert!(lossy);
    assert!(p.nullable);
}

#[test]
fn decimal_rendering_is_plain_base_ten() {
    assert_eq!(render_decimal(0), "0");
    assert_eq!(render_decimal(7), "7");
    assert_eq!(render_decimal(10), "10");
    assert_eq!(render_decimal(90210), "90210");
    assert_eq!(render_decimal(-1), "-1");
    assert_eq!(render_decimal(-100), "-100");
    assert_eq!(render_decimal(i128::MAX), "170141183460469231731687303715884105727");
    assert_eq!(render_decimal(i128::MIN), "-170141183460469231731687303715884105728");
}
