use vstd::prelude::*;
use crate::error::TranslateError;
use crate::types::TimeUnit;
use crate::ptypes::{PKindV, PTypeV, PTypeKind, PortableType};
use crate::codec::{precision_unit, unit_precision, max_decimal_precision};

verus! {

// ---------------------------------------------------------------------------
// The two literal representations.
// ---------------------------------------------------------------------------
/// A typed scalar literal of the engine.  A `None` payload is the typed NULL
/// of that variant's type; the type parameters (decimal precision, timestamp
/// unit and zone, fixed width) are carried even when the value is NULL.
///
/// Floating-point literals carry their IEEE-754 bit pattern, which the
/// translator moves without interpreting.  `Duration` stands outside the
/// supported set and is rejected with `UnsupportedType`.
#[derive(Debug, PartialEq)]
pub enum EngineLiteral {
    Bool(Option<bool>),
    Int8(Option<i8>),
    Int16(Option<i16>),
    Int32(Option<i32>),
    Int64(Option<i64>),
    UInt8(Option<u8>),
    UInt16(Option<u16>),
    UInt32(Option<u32>),
    UInt64(Option<u64>),
    Float32 { bits: Option<u32> },
    Float64 { bits: Option<u64> },
    Decimal { value: Option<i128>, precision: u8, scale: i8 },
    Date(Option<i32>),
    Timestamp { unit: TimeUnit, zone: Option<String>, value: Option<i64> },
    Utf8(Option<String>),
    LargeUtf8(Option<String>),
    Utf8View(Option<String>),
    Binary(Option<Vec<u8>>),
    LargeBinary(Option<Vec<u8>>),
    BinaryView(Option<Vec<u8>>),
    FixedBinary { width: u32, value: Option<Vec<u8>> },
    /// Not translatable; the literal codec fails on it.
    Duration { unit: TimeUnit, value: Option<i64> },
}

/// A literal of the portable encoding: an explicit nullability bit, carried
/// independently of the value, plus the value itself.  A NULL is encoded as
/// `Null` carrying the full portable type, so the typed NULL survives the
/// trip.
#[derive(Debug, PartialEq)]
pub struct PLiteral {
    pub nullable: bool,
    pub val: PLitVal,
}

/// The value part of a portable literal.
#[derive(Debug, PartialEq)]
pub enum PLitVal {
    Bool(bool),
    I8(i8),
    I16(i16),
    I32(i32),
    I64(i64),
    U8(u8),
    U16(u16),
    U32(u32),
    U64(u64),
    Fp32Bits(u32),
    Fp64Bits(u64),
    Decimal { value: i128, precision: u8, scale: i8 },
    Date(i32),
    PrecisionTimestamp { precision: u8, value: i64 },
    PrecisionTimestampZone { precision: u8, zone: String, value: i64 },
    Str(String),
    LargeStr(String),
    ViewStr(String),
    Bin(Vec<u8>),
    LargeBin(Vec<u8>),
    ViewBin(Vec<u8>),
    FixedBin { width: u32, value: Vec<u8> },
    /// The typed NULL of the carried portable type.
    Null(PortableType),
}

/// Mathematical model of an [`EngineLiteral`].
#[verifier::ext_equal]
pub enum ELitV {
    Bool(Option<bool>),
    Int8(Option<i8>),
    Int16(Option<i16>),
    Int32(Option<i32>),
    Int64(Option<i64>),
    UInt8(Option<u8>),
    UInt16(Option<u16>),
    UInt32(Option<u32>),
    UInt64(Option<u64>),
    Float32 { bits: Option<u32> },
    Float64 { bits: Option<u64> },
    Decimal { value: Option<i128>, precision: u8, scale: i8 },
    Date(Option<i32>),
    Timestamp { unit: TimeUnit, zone: Option<Seq<char>>, value: Option<i64> },
    Utf8(Option<Seq<char>>),
    LargeUtf8(Option<Seq<char>>),
    Utf8View(Option<Seq<char>>),
    Binary(Option<Seq<u8>>),
    LargeBinary(Option<Seq<u8>>),
    BinaryView(Option<Seq<u8>>),
    FixedBinary { width: u32, value: Option<Seq<u8>> },
    Duration { unit: TimeUnit, value: Option<i64> },
}

/// Mathematical model of a [`PLiteral`].
#[verifier::ext_equal]
pub struct PLiteralV {
    pub nullable: bool,
    pub val: PLitValV,
}

/// Mathematical model of a [`PLitVal`].
#[verifier::ext_equal]
pub enum PLitValV {
    Bool(bool),
    I8(i8),
    I16(i16),
    I32(i32),
    I64(i64),
    U8(u8),
    U16(u16),
    U32(u32),
    U64(u64),
    Fp32Bits(u32),
    Fp64Bits(u64),
    Decimal { value: i128, precision: u8, scale: i8 },
    Date(i32),
    PrecisionTimestamp { precision: u8, value: i64 },
    PrecisionTimestampZone { precision: u8, zone: Seq<char>, value: i64 },
    Str(Seq<char>),
    LargeStr(Seq<char>),
    ViewStr(Seq<char>),
    Bin(Seq<u8>),
    LargeBin(Seq<u8>),
    ViewBin(Seq<u8>),
    FixedBin { width: u32, value: Seq<u8> },
    Null(PTypeV),
}

/// The model of an engine literal.
pub open spec fn elit_view(l: EngineLiteral) -> ELitV {
    match l {
        EngineLiteral::Bool(v) => ELitV::Bool(v),
        EngineLiteral::Int8(v) => ELitV::Int8(v),
        EngineLiteral::Int16(v) => ELitV::Int16(v),
        EngineLiteral::Int32(v) => ELitV::Int32(v),
        EngineLiteral::Int64(v) => ELitV::Int64(v),
        EngineLiteral::UInt8(v) => ELitV::UInt8(v),
        EngineLiteral::UInt16(v) => ELitV::UInt16(v),
        EngineLiteral::UInt32(v) => ELitV::UInt32(v),
        EngineLiteral::UInt64(v) => ELitV::UInt64(v),
        EngineLiteral::Float32 { bits } => ELitV::Float32 { bits },
        EngineLiteral::Float64 { bits } => ELitV::Float64 { bits },
        EngineLiteral::Decimal { value, precision, scale } => ELitV::Decimal {
            value,
            precision,
            scale,
        },
        EngineLiteral::Date(v) => ELitV::Date(v),
        EngineLiteral::Timestamp { unit, zone, value } => ELitV::Timestamp {
            unit,
            zone: match zone {
                Some(z) => Some(z@),
                None => None,
            },
            value,
        },
        EngineLiteral::Utf8(v) => ELitV::Utf8(opt_str_view(v)),
        EngineLiteral::LargeUtf8(v) => ELitV::LargeUtf8(opt_str_view(v)),
        EngineLiteral::Utf8View(v) => ELitV::Utf8View(opt_str_view(v)),
        EngineLiteral::Binary(v) => ELitV::Binary(opt_bytes_view(v)),
        EngineLiteral::LargeBinary(v) => ELitV::LargeBinary(opt_bytes_view(v)),
        EngineLiteral::BinaryView(v) => ELitV::BinaryView(opt_bytes_view(v)),
        EngineLiteral::FixedBinary { width, value } => ELitV::FixedBinary {
            width,
            value: opt_bytes_view(value),
        },
        EngineLiteral::Duration { unit, value } => ELitV::Duration { unit, value },
    }
}

/// The view of an optional owned string.
pub open spec fn opt_str_view(v: Option<String>) -> Option<Seq<char>> {
    match v {
        Some(s) => Some(s@),
        None => None,
    }
}

/// The view of an optional owned byte buffer.
pub open spec fn opt_bytes_view(v: Option<Vec<u8>>) -> Option<Seq<u8>> {
    match v {
        Some(b) => Some(b@),
        None => None,
    }
}

/// The model of a portable literal.
pub open spec fn plit_view(l: PLiteral) -> PLiteralV {
    PLiteralV { nullable: l.nullable, val: plitval_view(l.val) }
}

/// The model of a portable literal value.
pub open spec fn plitval_view(v: PLitVal) -> PLitValV {
    match v {
        PLitVal::Bool(b) => PLitValV::Bool(b),
        PLitVal::I8(x) => PLitValV::I8(x),
        PLitVal::I16(x) => PLitValV::I16(x),
        PLitVal::I32(x) => PLitValV::I32(x),
        PLitVal::I64(x) => PLitValV::I64(x),
        PLitVal::U8(x) => PLitValV::U8(x),
        PLitVal::U16(x) => PLitValV::U16(x),
        PLitVal::U32(x) => PLitValV::U32(x),
        PLitVal::U64(x) => PLitValV::U64(x),
        PLitVal::Fp32Bits(x) => PLitValV::Fp32Bits(x),
        PLitVal::Fp64Bits(x) => PLitValV::Fp64Bits(x),
        PLitVal::Decimal { value, precision, scale } => PLitValV::Decimal {
            value,
            precision,
            scale,
        },
        PLitVal::Date(x) => PLitValV::Date(x),
        PLitVal::PrecisionTimestamp { precision, value } => PLitValV::PrecisionTimestamp {
            precision,
            value,
        },
        PLitVal::PrecisionTimestampZone { precision, zone, value } => {
            PLitValV::PrecisionTimestampZone { precision, zone: zone@, value }
        },
        PLitVal::Str(s) => PLitValV::Str(s@),
        PLitVal::LargeStr(s) => PLitValV::LargeStr(s@),
        PLitVal::ViewStr(s) => PLitValV::ViewStr(s@),
        PLitVal::Bin(b) => PLitValV::Bin(b@),
        PLitVal::LargeBin(b) => PLitValV::LargeBin(b@),
        PLitVal::ViewBin(b) => PLitValV::ViewBin(b@),
        PLitVal::FixedBin { width, value } => PLitValV::FixedBin { width, value: value@ },
        PLitVal::Null(t) => PLitValV::Null(crate::ptypes::ptype_view(t)),
    }
}

impl View for EngineLiteral {
    type V = ELitV;

    open spec fn view(&self) -> ELitV {
        elit_view(*self)
    }
}

impl View for PLiteral {
    type V = PLiteralV;

    open spec fn view(&self) -> PLiteralV {
        plit_view(*self)
    }
}

/// Whether an engine literal is a typed NULL.
pub open spec fn is_null_lit(l: ELitV) -> bool {
    match l {
        ELitV::Bool(v) => v is None,
        ELitV::Int8(v) => v is None,
        ELitV::Int16(v) => v is None,
        ELitV::Int32(v) => v is None,
        ELitV::Int64(v) => v is None,
        ELitV::UInt8(v) => v is None,
        ELitV::UInt16(v) => v is None,
        ELitV::UInt32(v) => v is None,
        ELitV::UInt64(v) => v is None,
        ELitV::Float32 { bits } => bits is None,
        ELitV::Float64 { bits } => bits is None,
        ELitV::Decimal { value, .. } => value is None,
        ELitV::Date(v) => v is None,
        ELitV::Timestamp { value, .. } => value is None,
        ELitV::Utf8(v) => v is None,
        ELitV::LargeUtf8(v) => v is None,
        ELitV::Utf8View(v) => v is None,
        ELitV::Binary(v) => v is None,
        ELitV::LargeBinary(v) => v is None,
        ELitV::BinaryView(v) => v is None,
        ELitV::FixedBinary { value, .. } => value is None,
        ELitV::Duration { value, .. } => value is None,
    }
}

/// The engine type a literal carries a value (or NULL) of.
pub open spec fn lit_type(l: ELitV) -> crate::types::ETypeV {
    match l {
        ELitV::Bool(_) => crate::types::ETypeV::Bool,
        ELitV::Int8(_) => crate::types::ETypeV::Int8,
        ELitV::Int16(_) => crate::types::ETypeV::Int16,
        ELitV::Int32(_) => crate::types::ETypeV::Int32,
        ELitV::Int64(_) => crate::types::ETypeV::Int64,
        ELitV::UInt8(_) => crate::types::ETypeV::UInt8,
        ELitV::UInt16(_) => crate::types::ETypeV::UInt16,
        ELitV::UInt32(_) => crate::types::ETypeV::UInt32,
        ELitV::UInt64(_) => crate::types::ETypeV::UInt64,
        ELitV::Float32 { .. } => crate::types::ETypeV::Float32,
        ELitV::Float64 { .. } => crate::types::ETypeV::Float64,
        ELitV::Decimal { precision, scale, .. } => crate::types::ETypeV::Decimal {
            precision,
            scale,
        },
        ELitV::Date(_) => crate::types::ETypeV::Date,
        ELitV::Timestamp { unit, zone, .. } => crate::types::ETypeV::Timestamp { unit, zone },
        ELitV::Utf8(_) => crate::types::ETypeV::Utf8,
        ELitV::LargeUtf8(_) => crate::types::ETypeV::LargeUtf8,
        ELitV::Utf8View(_) => crate::types::ETypeV::Utf8View,
        ELitV::Binary(_) => crate::types::ETypeV::Binary,
        ELitV::LargeBinary(_) => crate::types::ETypeV::LargeBinary,
        ELitV::BinaryView(_) => crate::types::ETypeV::BinaryView,
        ELitV::FixedBinary { width, .. } => crate::types::ETypeV::FixedBinary { width },
        ELitV::Duration { unit, .. } => crate::types::ETypeV::Duration { unit },
    }
}

// ---------------------------------------------------------------------------
// Decimal rendering, used by the string-cast fallback.
// ---------------------------------------------------------------------------
/// The decimal digit character for one digit value.
pub open spec fn digit_char(d: int) -> char {
    if d == 0 {
        '0'
    } else if d == 1 {
        '1'
    } else if d == 2 {
        '2'
    } else if d == 3 {
        '3'
    } else if d == 4 {
        '4'
    } else if d == 5 {
        '5'
    } else if d == 6 {
        '6'
    } else if d == 7 {
        '7'
    } else if d == 8 {
        '8'
    } else {
        '9'
    }
}

/// The decimal digit string of a non-negative integer, most significant
/// digit first.
pub open spec fn digits_of(n: int) -> Seq<char>
    recommends
        n >= 0,
    decreases n,
{
    if n < 10 {
        seq![digit_char(n)]
    } else {
        digits_of(n / 10).push(digit_char(n % 10))
    }
}

/// The decimal string of an integer: a minus sign for negatives, then the
/// digits of the magnitude.
pub open spec fn decimal_string_of(v: int) -> Seq<char> {
    if v < 0 {
        seq!['-'] + digits_of(-v)
    } else {
        digits_of(v)
    }
}

/// Appends the digit string of `n` to `out`.
fn push_digits(n: u128, out: &mut String)
    ensures
        final(out)@ == old(out)@ + digits_of(n as int),
    decreases n,
{
    if n >= 10 {
        push_digits(n / 10, out);
    }
    let d: u128 = n % 10;
    let ds: &str = if d == 0 {
        "0"
    } else if d == 1 {
        "1"
    } else if d == 2 {
        "2"
    } else if d == 3 {
        "3"
    } else if d == 4 {
        "4"
    } else if d == 5 {
        "5"
    } else if d == 6 {
        "6"
    } else if d == 7 {
        "7"
    } else if d == 8 {
        "8"
    } else {
        "9"
    };
    proof {
        reveal_strlit("0");
        reveal_strlit("1");
        reveal_strlit("2");
        reveal_strlit("3");
        reveal_strlit("4");
        reveal_strlit("5");
        reveal_strlit("6");
        reveal_strlit("7");
        reveal_strlit("8");
        reveal_strlit("9");
        assert(ds@ =~= seq![digit_char(d as int)]);
    }
    out.append(ds);
    proof {
        if n < 10 {
            assert(old(out)@ + digits_of(n as int) =~= out@);
        } else {
            assert(old(out)@ + digits_of(n as int) =~= out@);
        }
    }
}

/// Renders an integer as its decimal string, exactly as
/// [`decimal_string_of`] specifies.
pub fn render_decimal(v: i128) -> (s: String)
    ensures
        s@ == decimal_string_of(v as int),
{
    let mut out = String::new();
    if v < 0 {
        proof {
            reveal_strlit("-");
        }
        out.append("-");
        // The magnitude of `v` always fits in u128, including the most
        // negative value.
        let m: u128 = ((-(v + 1)) as u128) + 1;
        assert(m == -(v as int));
        push_digits(m, &mut out);
        proof {
            assert(out@ =~= decimal_string_of(v as int));
        }
    } else {
        push_digits(v as u128, &mut out);
        proof {
            assert(out@ =~= decimal_string_of(v as int));
        }
    }
    out
}

// ---------------------------------------------------------------------------
// Specification of the literal codec.
// ---------------------------------------------------------------------------
/// The portable type of a typed NULL for each supported literal shape.
pub open spec fn null_type_of(l: ELitV) -> PKindV {
    match l {
        ELitV::Bool(_) => PKindV::Bool,
        ELitV::Int8(_) => PKindV::I8,
        ELitV::Int16(_) => PKindV::I16,
        ELitV::Int32(_) => PKindV::I32,
        ELitV::Int64(_) => PKindV::I64,
        ELitV::UInt8(_) => PKindV::U8,
        ELitV::UInt16(_) => PKindV::U16,
        ELitV::UInt32(_) => PKindV::U32,
        ELitV::UInt64(_) => PKindV::U64,
        ELitV::Float32 { .. } => PKindV::Fp32,
        ELitV::Float64 { .. } => PKindV::Fp64,
        ELitV::Decimal { precision, scale, .. } => PKindV::Decimal { precision, scale },
        ELitV::Date(_) => PKindV::Date,
        ELitV::Timestamp { unit, zone, .. } => match zone {
            Some(z) => PKindV::PrecisionTimestampZone { precision: unit_precision(unit), zone: z },
            None => PKindV::PrecisionTimestamp { precision: unit_precision(unit) },
        },
        ELitV::Utf8(_) => PKindV::Str,
        ELitV::LargeUtf8(_) => PKindV::LargeStr,
        ELitV::Utf8View(_) => PKindV::ViewStr,
        ELitV::Binary(_) => PKindV::Bin,
        ELitV::LargeBinary(_) => PKindV::LargeBin,
        ELitV::BinaryView(_) => PKindV::ViewBin,
        ELitV::FixedBinary { width, .. } => PKindV::FixedBin { width },
        ELitV::Duration { .. } => PKindV::Bool,  // unreachable: rejected before use
    }
}

/// Encoding of an engine literal as a portable literal.
///
/// The boolean of the result flags the deliberate string-cast fallback: a
/// decimal wider than both systems' precision is carried as its decimal
/// string instead of failing.  Everything else is exact.  `Duration`
/// literals are `UnsupportedType`.
pub open spec fn enc_literal(l: ELitV) -> Result<(PLiteralV, bool), TranslateError> {
    match l {
        ELitV::Duration { .. } => Err(TranslateError::UnsupportedType),
        ELitV::Decimal { value, precision, scale } => if precision > max_decimal_precision() {
            match value {
                Some(v) => Ok(
                    (
                        PLiteralV { nullable: false, val: PLitValV::Str(decimal_string_of(v as int)) },
                        true,
                    ),
                ),
                None => Ok(
                    (
                        PLiteralV {
                            nullable: true,
                            val: PLitValV::Null(PTypeV { nullable: true, kind: PKindV::Str }),
                        },
                        true,
                    ),
                ),
            }
        } else {
            match value {
                Some(v) => Ok(
                    (
                        PLiteralV {
                            nullable: false,
                            val: PLitValV::Decimal { value: v, precision, scale },
                        },
                        false,
                    ),
                ),
                None => Ok((null_literal(l), false)),
            }
        },
        _ => if is_null_lit(l) {
            Ok((null_literal(l), false))
        } else {
            Ok((PLiteralV { nullable: false, val: value_of(l) }, false))
        },
    }
}

/// The portable typed-NULL literal for a supported engine literal shape.
pub open spec fn null_literal(l: ELitV) -> PLiteralV {
    PLiteralV {
        nullable: true,
        val: PLitValV::Null(PTypeV { nullable: true, kind: null_type_of(l) }),
    }
}

/// The portable value for a non-NULL supported engine literal.
pub open spec fn value_of(l: ELitV) -> PLitValV {
    match l {
        ELitV::Bool(v) => PLitValV::Bool(v->0),
        ELitV::Int8(v) => PLitValV::I8(v->0),
        ELitV::Int16(v) => PLitValV::I16(v->0),
        ELitV::Int32(v) => PLitValV::I32(v->0),
        ELitV::Int64(v) => PLitValV::I64(v->0),
        ELitV::UInt8(v) => PLitValV::U8(v->0),
        ELitV::UInt16(v) => PLitValV::U16(v->0),
        ELitV::UInt32(v) => PLitValV::U32(v->0),
        ELitV::UInt64(v) => PLitValV::U64(v->0),
        ELitV::Float32 { bits } => PLitValV::Fp32Bits(bits->0),
        ELitV::Float64 { bits } => PLitValV::Fp64Bits(bits->0),
        ELitV::Decimal { value, precision, scale } => PLitValV::Decimal {
            value: value->0,
            precision,
            scale,
        },
        ELitV::Date(v) => PLitValV::Date(v->0),
        ELitV::Timestamp { unit, zone, value } => match zone {
            Some(z) => PLitValV::PrecisionTimestampZone {
                precision: unit_precision(unit),
                zone: z,
                value: value->0,
            },
            None => PLitValV::PrecisionTimestamp {
                precision: unit_precision(unit),
                value: value->0,
            },
        },
        ELitV::Utf8(v) => PLitValV::Str(v->0),
        ELitV::LargeUtf8(v) => PLitValV::LargeStr(v->0),
        ELitV::Utf8View(v) => PLitValV::ViewStr(v->0),
        ELitV::Binary(v) => PLitValV::Bin(v->0),
        ELitV::LargeBinary(v) => PLitValV::LargeBin(v->0),
        ELitV::BinaryView(v) => PLitValV::ViewBin(v->0),
        ELitV::FixedBinary { width, value } => PLitValV::FixedBin { width, value: value->0 },
        ELitV::Duration { value, .. } => PLitValV::I64(value->0),  // unreachable: rejected before use
    }
}

/// The engine typed NULL for a decodable portable type, where the engine has
/// a literal of that type at all.
pub open spec fn null_of_type(t: crate::types::ETypeV) -> Option<ELitV> {
    match t {
        crate::types::ETypeV::Bool => Some(ELitV::Bool(None)),
        crate::types::ETypeV::Int8 => Some(ELitV::Int8(None)),
        crate::types::ETypeV::Int16 => Some(ELitV::Int16(None)),
        crate::types::ETypeV::Int32 => Some(ELitV::Int32(None)),
        crate::types::ETypeV::Int64 => Some(ELitV::Int64(None)),
        crate::types::ETypeV::UInt8 => Some(ELitV::UInt8(None)),
        crate::types::ETypeV::UInt16 => Some(ELitV::UInt16(None)),
        crate::types::ETypeV::UInt32 => Some(ELitV::UInt32(None)),
        crate::types::ETypeV::UInt64 => Some(ELitV::UInt64(None)),
        crate::types::ETypeV::Float32 => Some(ELitV::Float32 { bits: None }),
        crate::types::ETypeV::Float64 => Some(ELitV::Float64 { bits: None }),
        crate::types::ETypeV::Decimal { precision, scale } => Some(
            ELitV::Decimal { value: None, precision, scale },
        ),
        crate::types::ETypeV::Date => Some(ELitV::Date(None)),
        crate::types::ETypeV::Timestamp { unit, zone } => Some(
            ELitV::Timestamp { unit, zone, value: None },
        ),
        crate::types::ETypeV::Utf8 => Some(ELitV::Utf8(None)),
        crate::types::ETypeV::LargeUtf8 => Some(ELitV::LargeUtf8(None)),
        crate::types::ETypeV::Utf8View => Some(ELitV::Utf8View(None)),
        crate::types::ETypeV::Binary => Some(ELitV::Binary(None)),
        crate::types::ETypeV::LargeBinary => Some(ELitV::LargeBinary(None)),
        crate::types::ETypeV::BinaryView => Some(ELitV::BinaryView(None)),
        crate::types::ETypeV::FixedBinary { width } => Some(
            ELitV::FixedBinary { width, value: None },
        ),
        _ => None,
    }
}

/// Decoding of a portable literal back to an engine literal.
pub open spec fn dec_literal(p: PLiteralV) -> Result<ELitV, TranslateError> {
    match p.val {
        PLitValV::Bool(b) => Ok(ELitV::Bool(Some(b))),
        PLitValV::I8(x) => Ok(ELitV::Int8(Some(x))),
        PLitValV::I16(x) => Ok(ELitV::Int16(Some(x))),
        PLitValV::I32(x) => Ok(ELitV::Int32(Some(x))),
        PLitValV::I64(x) => Ok(ELitV::Int64(Some(x))),
        PLitValV::U8(x) => Ok(ELitV::UInt8(Some(x))),
        PLitValV::U16(x) => Ok(ELitV::UInt16(Some(x))),
        PLitValV::U32(x) => Ok(ELitV::UInt32(Some(x))),
        PLitValV::U64(x) => Ok(ELitV::UInt64(Some(x))),
        PLitValV::Fp32Bits(x) => Ok(ELitV::Float32 { bits: Some(x) }),
        PLitValV::Fp64Bits(x) => Ok(ELitV::Float64 { bits: Some(x) }),
        PLitValV::Decimal { value, precision, scale } => if precision
            <= max_decimal_precision() {
            Ok(ELitV::Decimal { value: Some(value), precision, scale })
        } else {
            Err(TranslateError::UnsupportedType)
        },
        PLitValV::Date(x) => Ok(ELitV::Date(Some(x))),
        PLitValV::PrecisionTimestamp { precision, value } => match precision_unit(precision) {
            Some(u) => Ok(ELitV::Timestamp { unit: u, zone: None, value: Some(value) }),
            None => Err(TranslateError::UnsupportedType),
        },
        PLitValV::PrecisionTimestampZone { precision, zone, value } => match precision_unit(
            precision,
        ) {
            Some(u) => Ok(ELitV::Timestamp { unit: u, zone: Some(zone), value: Some(value) }),
            None => Err(TranslateError::UnsupportedType),
        },
        PLitValV::Str(s) => Ok(ELitV::Utf8(Some(s))),
        PLitValV::LargeStr(s) => Ok(ELitV::LargeUtf8(Some(s))),
        PLitValV::ViewStr(s) => Ok(ELitV::Utf8View(Some(s))),
        PLitValV::Bin(b) => Ok(ELitV::Binary(Some(b))),
        PLitValV::LargeBin(b) => Ok(ELitV::LargeBinary(Some(b))),
        PLitValV::ViewBin(b) => Ok(ELitV::BinaryView(Some(b))),
        PLitValV::FixedBin { width, value } => Ok(
            ELitV::FixedBinary { width, value: Some(value) },
        ),
        PLitValV::Null(t) => match crate::codec::dec_type(t) {
            Ok((et, _n)) => match null_of_type(et) {
                Some(l) => Ok(l),
                None => Err(TranslateError::UnsupportedType),
            },
            Err(e) => Err(e),
        },
    }
}

// ---------------------------------------------------------------------------
// Laws of the literal codec.
// ---------------------------------------------------------------------------
/// Whatever the literal codec encodes exactly (no fallback), it decodes back
/// to the literal it started from.
pub proof fn lemma_literal_roundtrip(l: ELitV)
    ensures
        enc_literal(l) matches Ok(r) ==> !r.1 ==> dec_literal(r.0) == Ok::<_, TranslateError>(l),
{
}

/// A typed NULL round-trips to the typed NULL of that same type, for every
/// supported literal type: never a different type's NULL, never a non-null
/// default.
pub proof fn lemma_null_literal_preserved(l: ELitV)
    requires
        is_null_lit(l),
        enc_literal(l) matches Ok(r) && !r.1,
    ensures
        dec_literal(enc_literal(l)->Ok_0.0) == Ok::<_, TranslateError>(l),
        lit_type(dec_literal(enc_literal(l)->Ok_0.0)->Ok_0) == lit_type(l),
        is_null_lit(dec_literal(enc_literal(l)->Ok_0.0)->Ok_0),
{
    lemma_literal_roundtrip(l);
}

// ---------------------------------------------------------------------------
// Executable literal codec.
// ---------------------------------------------------------------------------
/// Copies a byte buffer, preserving its view.
pub(crate) fn clone_bytes(v: &Vec<u8>) -> (r: Vec<u8>)
    ensures
        r@ == v@,
{
    let mut out: Vec<u8> = Vec::new();
    let mut i: usize = 0;
    while i < v.len()
        invariant
            i <= v.len(),
            out@ =~= v@.subrange(0, i as int),
        decreases v.len() - i,
    {
        out.push(v[i]);
        i = i + 1;
    }
    proof {
        assert(out@ =~= v@);
    }
    out
}

/// Encodes an engine literal, exactly as [`enc_literal`] specifies; the
/// boolean of the result flags the string-cast fallback.
pub fn encode_literal(l: &EngineLiteral) -> (r: Result<(PLiteral, bool), TranslateError>)
    ensures
        (match r {
            Ok(p) => enc_literal(l@) == Ok::<_, TranslateError>((p.0@, p.1)),
            Err(e) => enc_literal(l@) == Err::<(PLiteralV, bool), _>(e),
        }),
{
    match l {
        EngineLiteral::Duration { .. } => Err(TranslateError::UnsupportedType),
        EngineLiteral::Bool(v) => match v {
            Some(b) => Ok((PLiteral { nullable: false, val: PLitVal::Bool(*b) }, false)),
            None => Ok((null_lit_exec(PTypeKind::Bool), false)),
        },
        EngineLiteral::Int8(v) => match v {
            Some(x) => Ok((PLiteral { nullable: false, val: PLitVal::I8(*x) }, false)),
            None => Ok((null_lit_exec(PTypeKind::I8), false)),
        },
        EngineLiteral::Int16(v) => match v {
            Some(x) => Ok((PLiteral { nullable: false, val: PLitVal::I16(*x) }, false)),
            None => Ok((null_lit_exec(PTypeKind::I16), false)),
        },
        EngineLiteral::Int32(v) => match v {
            Some(x) => Ok((PLiteral { nullable: false, val: PLitVal::I32(*x) }, false)),
            None => Ok((null_lit_exec(PTypeKind::I32), false)),
        },
        EngineLiteral::Int64(v) => match v {
            Some(x) => Ok((PLiteral { nullable: false, val: PLitVal::I64(*x) }, false)),
            None => Ok((null_lit_exec(PTypeKind::I64), false)),
        },
        EngineLiteral::UInt8(v) => match v {
            Some(x) => Ok((PLiteral { nullable: false, val: PLitVal::U8(*x) }, false)),
            None => Ok((null_lit_exec(PTypeKind::U8), false)),
        },
        EngineLiteral::UInt16(v) => match v {
            Some(x) => Ok((PLiteral { nullable: false, val: PLitVal::U16(*x) }, false)),
            None => Ok((null_lit_exec(PTypeKind::U16), false)),
        },
        EngineLiteral::UInt32(v) => match v {
            Some(x) => Ok((PLiteral { nullable: false, val: PLitVal::U32(*x) }, false)),
            None => Ok((null_lit_exec(PTypeKind::U32), false)),
        },
        EngineLiteral::UInt64(v) => match v {
            Some(x) => Ok((PLiteral { nullable: false, val: PLitVal::U64(*x) }, false)),
            None => Ok((null_lit_exec(PTypeKind::U64), false)),
        },
        EngineLiteral::Float32 { bits } => match bits {
            Some(x) => Ok((PLiteral { nullable: false, val: PLitVal::Fp32Bits(*x) }, false)),
            None => Ok((null_lit_exec(PTypeKind::Fp32), false)),
        },
        EngineLiteral::Float64 { bits } => match bits {
            Some(x) => Ok((PLiteral { nullable: false, val: PLitVal::Fp64Bits(*x) }, false)),
            None => Ok((null_lit_exec(PTypeKind::Fp64), false)),
        },
        EngineLiteral::Decimal { value, precision, scale } => {
            if *precision > 38 {
                match value {
                    Some(v) => {
                        let s = render_decimal(*v);
                        Ok((PLiteral { nullable: false, val: PLitVal::Str(s) }, true))
                    },
                    None => Ok((null_lit_exec(PTypeKind::Str), true)),
                }
            } else {
                match value {
                    Some(v) => Ok(
                        (
                            PLiteral {
                                nullable: false,
                                val: PLitVal::Decimal {
                                    value: *v,
                                    precision: *precision,
                                    scale: *scale,
                                },
                            },
                            false,
                        ),
                    ),
                    None => Ok(
                        (
                            null_lit_exec(
                                PTypeKind::Decimal { precision: *precision, scale: *scale },
                            ),
                            false,
                        ),
                    ),
                }
            }
        },
        EngineLiteral::Date(v) => match v {
            Some(x) => Ok((PLiteral { nullable: false, val: PLitVal::Date(*x) }, false)),
            None => Ok((null_lit_exec(PTypeKind::Date), false)),
        },
        EngineLiteral::Timestamp { unit, zone, value } => {
            let precision: u8 = match unit {
                TimeUnit::Second => 0,
                TimeUnit::Millisecond => 3,
                TimeUnit::Microsecond => 6,
                TimeUnit::Nanosecond => 9,
            };
            match (zone, value) {
                (Some(z), Some(v)) => Ok(
                    (
                        PLiteral {
                            nullable: false,
                            val: PLitVal::PrecisionTimestampZone {
                                precision,
                                zone: z.clone(),
                                value: *v,
                            },
                        },
                        false,
                    ),
                ),
                (None, Some(v)) => Ok(
                    (
                        PLiteral {
                            nullable: false,
                            val: PLitVal::PrecisionTimestamp { precision, value: *v },
                        },
                        false,
                    ),
                ),
                (Some(z), None) => Ok(
                    (
                        null_lit_exec(
                            PTypeKind::PrecisionTimestampZone { precision, zone: z.clone() },
                        ),
                        false,
                    ),
                ),
                (None, None) => Ok(
                    (null_lit_exec(PTypeKind::PrecisionTimestamp { precision }), false),
                ),
            }
        },
        EngineLiteral::Utf8(v) => match v {
            Some(s) => Ok((PLiteral { nullable: false, val: PLitVal::Str(s.clone()) }, false)),
            None => Ok((null_lit_exec(PTypeKind::Str), false)),
        },
        EngineLiteral::LargeUtf8(v) => match v {
            Some(s) => Ok(
                (PLiteral { nullable: false, val: PLitVal::LargeStr(s.clone()) }, false),
            ),
            None => Ok((null_lit_exec(PTypeKind::LargeStr), false)),
        },
        EngineLiteral::Utf8View(v) => match v {
            Some(s) => Ok((PLiteral { nullable: false, val: PLitVal::ViewStr(s.clone()) }, false)),
            None => Ok((null_lit_exec(PTypeKind::ViewStr), false)),
        },
        EngineLiteral::Binary(v) => match v {
            Some(b) => Ok((PLiteral { nullable: false, val: PLitVal::Bin(clone_bytes(b)) }, false)),
            None => Ok((null_lit_exec(PTypeKind::Bin), false)),
        },
        EngineLiteral::LargeBinary(v) => match v {
            Some(b) => Ok(
                (PLiteral { nullable: false, val: PLitVal::LargeBin(clone_bytes(b)) }, false),
            ),
            None => Ok((null_lit_exec(PTypeKind::LargeBin), false)),
        },
        EngineLiteral::BinaryView(v) => match v {
            Some(b) => Ok(
                (PLiteral { nullable: false, val: PLitVal::ViewBin(clone_bytes(b)) }, false),
            ),
            None => Ok((null_lit_exec(PTypeKind::ViewBin), false)),
        },
        EngineLiteral::FixedBinary { width, value } => match value {
            Some(b) => Ok(
                (
                    PLiteral {
                        nullable: false,
                        val: PLitVal::FixedBin { width: *width, value: clone_bytes(b) },
                    },
                    false,
                ),
            ),
            None => Ok((null_lit_exec(PTypeKind::FixedBin { width: *width }), false)),
        },
    }
}

/// Builds the portable typed-NULL literal of one portable kind.
fn null_lit_exec(kind: PTypeKind) -> (r: PLiteral)
    ensures
        r@ == (PLiteralV {
            nullable: true,
            val: PLitValV::Null(PTypeV { nullable: true, kind: crate::ptypes::pkind_view(kind) }),
        }),
{
    PLiteral { nullable: true, val: PLitVal::Null(PortableType { nullable: true, kind }) }
}

/// Decodes a portable literal, exactly as [`dec_literal`] specifies.
pub fn decode_literal(p: &PLiteral) -> (r: Result<EngineLiteral, TranslateError>)
    ensures
        (match r {
            Ok(l) => dec_literal(p@) == Ok::<_, TranslateError>(l@),
            Err(e) => dec_literal(p@) == Err::<ELitV, _>(e),
        }),
{
    match &p.val {
        PLitVal::Bool(b) => Ok(EngineLiteral::Bool(Some(*b))),
        PLitVal::I8(x) => Ok(EngineLiteral::Int8(Some(*x))),
        PLitVal::I16(x) => Ok(EngineLiteral::Int16(Some(*x))),
        PLitVal::I32(x) => Ok(EngineLiteral::Int32(Some(*x))),
        PLitVal::I64(x) => Ok(EngineLiteral::Int64(Some(*x))),
        PLitVal::U8(x) => Ok(EngineLiteral::UInt8(Some(*x))),
        PLitVal::U16(x) => Ok(EngineLiteral::UInt16(Some(*x))),
        PLitVal::U32(x) => Ok(EngineLiteral::UInt32(Some(*x))),
        PLitVal::U64(x) => Ok(EngineLiteral::UInt64(Some(*x))),
        PLitVal::Fp32Bits(x) => Ok(EngineLiteral::Float32 { bits: Some(*x) }),
        PLitVal::Fp64Bits(x) => Ok(EngineLiteral::Float64 { bits: Some(*x) }),
        PLitVal::Decimal { value, precision, scale } => {
            if *precision <= 38 {
                Ok(
                    EngineLiteral::Decimal {
                        value: Some(*value),
                        precision: *precision,
                        scale: *scale,
                    },
                )
            } else {
                Err(TranslateError::UnsupportedType)
            }
        },
        PLitVal::Date(x) => Ok(EngineLiteral::Date(Some(*x))),
        PLitVal::PrecisionTimestamp { precision, value } => {
            match crate::codec::decode_precision(*precision) {
                Some(u) => Ok(EngineLiteral::Timestamp { unit: u, zone: None, value: Some(*value) }),
                None => Err(TranslateError::UnsupportedType),
            }
        },
        PLitVal::PrecisionTimestampZone { precision, zone, value } => {
            match crate::codec::decode_precision(*precision) {
                Some(u) => Ok(
                    EngineLiteral::Timestamp {
                        unit: u,
                        zone: Some(zone.clone()),
                        value: Some(*value),
                    },
                ),
                None => Err(TranslateError::UnsupportedType),
            }
        },
        PLitVal::Str(s) => Ok(EngineLiteral::Utf8(Some(s.clone()))),
        PLitVal::LargeStr(s) => Ok(EngineLiteral::LargeUtf8(Some(s.clone()))),
        PLitVal::ViewStr(s) => Ok(EngineLiteral::Utf8View(Some(s.clone()))),
        PLitVal::Bin(b) => Ok(EngineLiteral::Binary(Some(clone_bytes(b)))),
        PLitVal::LargeBin(b) => Ok(EngineLiteral::LargeBinary(Some(clone_bytes(b)))),
        PLitVal::ViewBin(b) => Ok(EngineLiteral::BinaryView(Some(clone_bytes(b)))),
        PLitVal::FixedBin { width, value } => Ok(
            EngineLiteral::FixedBinary { width: *width, value: Some(clone_bytes(value)) },
        ),
        PLitVal::Null(t) => match crate::codec::decode_type(t) {
            Ok((et, _n)) => match null_literal_of_engine_type(&et) {
                Some(l) => Ok(l),
                None => Err(TranslateError::UnsupportedType),
            },
            Err(e) => Err(e),
        },
    }
}

/// Builds the engine typed NULL of a decoded engine type, where one exists.
fn null_literal_of_engine_type(t: &crate::types::EngineType) -> (r: Option<EngineLiteral>)
    ensures
        (match r {
            Some(l) => null_of_type(t@) == Some(l@),
            None => null_of_type(t@) is None,
        }),
{
    match t {
        crate::types::EngineType::Bool => Some(EngineLiteral::Bool(None)),
        crate::types::EngineType::Int8 => Some(EngineLiteral::Int8(None)),
        crate::types::EngineType::Int16 => Some(EngineLiteral::Int16(None)),
        crate::types::EngineType::Int32 => Some(EngineLiteral::Int32(None)),
        crate::types::EngineType::Int64 => Some(EngineLiteral::Int64(None)),
        crate::types::EngineType::UInt8 => Some(EngineLiteral::UInt8(None)),
        crate::types::EngineType::UInt16 => Some(EngineLiteral::UInt16(None)),
        crate::types::EngineType::UInt32 => Some(EngineLiteral::UInt32(None)),
        crate::types::EngineType::UInt64 => Some(EngineLiteral::UInt64(None)),
        crate::types::EngineType::Float32 => Some(EngineLiteral::Float32 { bits: None }),
        crate::types::EngineType::Float64 => Some(EngineLiteral::Float64 { bits: None }),
        crate::types::EngineType::Decimal { precision, scale } => Some(
            EngineLiteral::Decimal { value: None, precision: *precision, scale: *scale },
        ),
        crate::types::EngineType::Date => Some(EngineLiteral::Date(None)),
        crate::types::EngineType::Timestamp { unit, zone } => Some(
            EngineLiteral::Timestamp {
                unit: *unit,
                zone: match zone {
                    Some(z) => Some(z.clone()),
                    None => None,
                },
                value: None,
            },
        ),
        crate::types::EngineType::Utf8 => Some(EngineLiteral::Utf8(None)),
        crate::types::EngineType::LargeUtf8 => Some(EngineLiteral::LargeUtf8(None)),
        crate::types::EngineType::Utf8View => Some(EngineLiteral::Utf8View(None)),
        crate::types::EngineType::Binary => Some(EngineLiteral::Binary(None)),
        crate::types::EngineType::LargeBinary => Some(EngineLiteral::LargeBinary(None)),
        crate::types::EngineType::BinaryView => Some(EngineLiteral::BinaryView(None)),
        crate::types::EngineType::FixedBinary { width } => Some(
            EngineLiteral::FixedBinary { width: *width, value: None },
        ),
        _ => None,
    }
}

/// Copies an engine literal, preserving its model.
pub fn clone_literal(l: &EngineLiteral) -> (r: EngineLiteral)
    ensures
        r@ == l@,
{
    match l {
        EngineLiteral::Bool(v) => EngineLiteral::Bool(*v),
        EngineLiteral::Int8(v) => EngineLiteral::Int8(*v),
        EngineLiteral::Int16(v) => EngineLiteral::Int16(*v),
        EngineLiteral::Int32(v) => EngineLiteral::Int32(*v),
        EngineLiteral::Int64(v) => EngineLiteral::Int64(*v),
        EngineLiteral::UInt8(v) => EngineLiteral::UInt8(*v),
        EngineLiteral::UInt16(v) => EngineLiteral::UInt16(*v),
        EngineLiteral::UInt32(v) => EngineLiteral::UInt32(*v),
        EngineLiteral::UInt64(v) => EngineLiteral::UInt64(*v),
        EngineLiteral::Float32 { bits } => EngineLiteral::Float32 { bits: *bits },
        EngineLiteral::Float64 { bits } => EngineLiteral::Float64 { bits: *bits },
        EngineLiteral::Decimal { value, precision, scale } => EngineLiteral::Decimal {
            value: *value,
            precision: *precision,
            scale: *scale,
        },
        EngineLiteral::Date(v) => EngineLiteral::Date(*v),
        EngineLiteral::Timestamp { unit, zone, value } => EngineLiteral::Timestamp {
            unit: *unit,
            zone: match zone {
                Some(z) => Some(z.clone()),
                None => None,
            },
            value: *value,
        },
        EngineLiteral::Utf8(v) => EngineLiteral::Utf8(clone_opt_string(v)),
        EngineLiteral::LargeUtf8(v) => EngineLiteral::LargeUtf8(clone_opt_string(v)),
        EngineLiteral::Utf8View(v) => EngineLiteral::Utf8View(clone_opt_string(v)),
        EngineLiteral::Binary(v) => EngineLiteral::Binary(clone_opt_bytes(v)),
        EngineLiteral::LargeBinary(v) => EngineLiteral::LargeBinary(clone_opt_bytes(v)),
        EngineLiteral::BinaryView(v) => EngineLiteral::BinaryView(clone_opt_bytes(v)),
        EngineLiteral::FixedBinary { width, value } => EngineLiteral::FixedBinary {
            width: *width,
            value: clone_opt_bytes(value),
        },
        EngineLiteral::Duration { unit, value } => EngineLiteral::Duration {
            unit: *unit,
            value: *value,
        },
    }
}

/// Copies an optional string, preserving its view.
fn clone_opt_string(v: &Option<String>) -> (r: Option<String>)
    ensures
        opt_str_view(r) == opt_str_view(*v),
{
    match v {
        Some(s) => Some(s.clone()),
        None => None,
    }
}

/// Copies an optional byte buffer, preserving its view.
fn clone_opt_bytes(v: &Option<Vec<u8>>) -> (r: Option<Vec<u8>>)
    ensures
        opt_bytes_view(r) == opt_bytes_view(*v),
{
    match v {
        Some(b) => Some(clone_bytes(b)),
        None => None,
    }
}

} // verus!
