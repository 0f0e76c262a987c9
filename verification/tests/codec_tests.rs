use planwire::codec::{decode_type, encode_type, decode_schema, encode_schema};
use planwire::error::TranslateError;
use planwire::ptypes::{PField, PTypeKind, PortableType};
use planwire::types::{EField, EngineType, TimeUnit};

fn roundtrip_type(t: EngineType, nullable: bool) {
    let p = encode_type(&t, nullable).expect("supported type must encode");
    let (back, n) = decode_type(&p).expect("encoded type must decode");
    assert_eq!(back, t);
    assert_eq!(n, nullable);
}

#[test]
fn scalar_types_roundtrip() {
    roundtrip_type(EngineType::Bool, false);
    roundtrip_type(EngineType::Int8, true);
    roundtrip_type(EngineType::Int16, false);
    roundtrip_type(EngineType::Int32, true);
    roundtrip_type(EngineType::Int64, false);
    roundtrip_type(EngineType::UInt8, true);
    roundtrip_type(EngineType::UInt16, false);
    roundtrip_type(EngineType::UInt32, true);
    roundtrip_type(EngineType::UInt64, false);
    roundtrip_type(EngineType::Float32, true);
    roundtrip_type(EngineType::Float64, false);
    roundtrip_type(EngineType::Date, true);
    roundtrip_type(EngineType::Utf8, false);
    roundtrip_type(EngineType::LargeUtf8, true);
    roundtrip_type(EngineType::Utf8View, false);
    roundtrip_type(EngineType::Binary, true);
    roundtrip_type(EngineType::LargeBinary, false);
    roundtrip_type(EngineType::BinaryView, true);
    roundtrip_type(EngineType::FixedBinary { width: 16 }, false);
}

#[test]
fn decimal_type_roundtrip() {
    roundtrip_type(EngineType::Decimal { precision: 38, scale: 10 }, true);
    roundtrip_type(EngineType::Decimal { precision: 5, scale: -2 }, false);
}

#[test]
fn wide_decimal_type_is_unsupported() {
    let t = EngineType::Decimal { precision: 39, scale: 0 };
    assert_eq!(encode_type(&t, false), Err(TranslateError::UnsupportedType));
}

#[test]
fn timestamp_units_map_to_precisions() {
    let cases = [
        (TimeUnit::Second, 0u8),
        (TimeUnit::Millisecond, 3),
        (TimeUnit::Microsecond, 6),
        (TimeUnit::Nanosecond, 9),
    ];
    for (unit, precision) in cases {
        let t = EngineType::Timestamp { unit, zone: None };
        let p = encode_type(&t, false).unwrap();
        assert_eq!(p.kind, PTypeKind::PrecisionTimestamp { precision });
        roundtrip_type(EngineType::Timestamp { unit, zone: None }, false);
        roundtrip_type(
            EngineType::Timestamp { unit, zone: Some(String::from("UTC")) },
            true,
        );
    }
}

#[test]
fn bad_timestamp_precision_does_not_decode() {
    let p = PortableType { nullable: false, kind: PTypeKind::PrecisionTimestamp { precision: 4 } };
    assert_eq!(decode_type(&p), Err(TranslateError::UnsupportedType));
}

#[test]
fn user_defined_type_does_not_decode() {
    let p = PortableType { nullable: true, kind: PTypeKind::UserDefined { reference: 7 } };
    assert_eq!(decode_type(&p), Err(TranslateError::UnsupportedType));
}

#[test]
fn duration_and_interval_are_unsupported() {
    let d = EngineType::Duration { unit: TimeUnit::Second };
    assert_eq!(encode_type(&d, false), Err(TranslateError::UnsupportedType));
    assert_eq!(encode_type(&EngineType::Interval, true), Err(TranslateError::UnsupportedType));
}

#[test]
fn nested_list_roundtrip() {
    let t = EngineType::List {
        elem: Box::new(EngineType::LargeList {
            elem: Box::new(EngineType::Int32),
            elem_nullable: false,
        }),
        elem_nullable: true,
    };
    roundtrip_type(t, true);
}

#[test]
fn struct_type_roundtrip() {
    let t = EngineType::Struct {
        fields: vec![
            EField { name: String::from("x"), ty: EngineType::Int64, nullable: false },
            EField { name: String::from("y"), ty: EngineType::Utf8, nullable: true },
        ],
    };
    roundtrip_type(t, false);
}

#[test]
fn struct_with_unsupported_field_fails() {
    let t = EngineType::Struct {
        fields: vec![
            EField { name: String::from("ok"), ty: EngineType::Bool, nullable: false },
            EField { name: String::from("bad"), ty: EngineType::Interval, nullable: false },
        ],
    };
    assert_eq!(encode_type(&t, false), Err(TranslateError::UnsupportedType));
}

#[test]
fn schema_roundtrip_preserves_order_and_nullability() {
    let schema = vec![
        EField { name: String::from("a"), ty: EngineType::Int64, nullable: false },
        EField { name: String::from("b"), ty: EngineType::Utf8, nullable: true },
        EField {
            name: String::from("c"),
            ty: EngineType::Decimal { precision: 10, scale: 2 },
            nullable: true,
        },
    ];
    let ps: Vec<PField> = encode_schema(&schema).unwrap();
    assert_eq!(ps.len(), 3);
    assert_eq!(ps[0].name, "a");
    assert!(!ps[0].ty.nullable);
    assert!(ps[1].ty.nullable);
    let back = decode_schema(&ps).unwrap();
    assert_eq!(back, schema);
}
