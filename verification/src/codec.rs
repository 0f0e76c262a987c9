use vstd::prelude::*;
use crate::error::TranslateError;
use crate::types::{EField, EFieldV, ETypeV, EngineType, TimeUnit, efields_view};
use crate::ptypes::{PField, PFieldV, PKindV, PTypeV, PTypeKind, PortableType, pfield_view, pfields_view};

verus! {

// ---------------------------------------------------------------------------
// Specification: how each type maps across the boundary.
// ---------------------------------------------------------------------------
/// The sub-second decimal digits a timestamp unit corresponds to in the
/// portable encoding.
pub open spec fn unit_precision(u: TimeUnit) -> u8 {
    match u {
        TimeUnit::Second => 0,
        TimeUnit::Millisecond => 3,
        TimeUnit::Microsecond => 6,
        TimeUnit::Nanosecond => 9,
    }
}

/// The timestamp unit a portable precision decodes to; only 0, 3, 6 and 9
/// are representable on the engine side.
pub open spec fn precision_unit(p: u8) -> Option<TimeUnit> {
    if p == 0 {
        Some(TimeUnit::Second)
    } else if p == 3 {
        Some(TimeUnit::Millisecond)
    } else if p == 6 {
        Some(TimeUnit::Microsecond)
    } else if p == 9 {
        Some(TimeUnit::Nanosecond)
    } else {
        None
    }
}

/// The widest decimal precision both type systems support.
pub open spec fn max_decimal_precision() -> u8 {
    38
}

/// Encoding of an engine type (plus the nullability of the slot holding it)
/// as a portable type.  Total on the supported set, `UnsupportedType`
/// elsewhere.
pub open spec fn enc_type(t: ETypeV, nullable: bool) -> Result<PTypeV, TranslateError>
    decreases t, 1int,
{
    match enc_kind(t) {
        Ok(k) => Ok(PTypeV { nullable, kind: k }),
        Err(e) => Err(e),
    }
}

/// Encoding of the kind part of an engine type.
pub open spec fn enc_kind(t: ETypeV) -> Result<PKindV, TranslateError>
    decreases t, 0int,
{
    match t {
        ETypeV::Bool => Ok(PKindV::Bool),
        ETypeV::Int8 => Ok(PKindV::I8),
        ETypeV::Int16 => Ok(PKindV::I16),
        ETypeV::Int32 => Ok(PKindV::I32),
        ETypeV::Int64 => Ok(PKindV::I64),
        ETypeV::UInt8 => Ok(PKindV::U8),
        ETypeV::UInt16 => Ok(PKindV::U16),
        ETypeV::UInt32 => Ok(PKindV::U32),
        ETypeV::UInt64 => Ok(PKindV::U64),
        ETypeV::Float32 => Ok(PKindV::Fp32),
        ETypeV::Float64 => Ok(PKindV::Fp64),
        ETypeV::Decimal { precision, scale } => if precision <= max_decimal_precision() {
            Ok(PKindV::Decimal { precision, scale })
        } else {
            Err(TranslateError::UnsupportedType)
        },
        ETypeV::Date => Ok(PKindV::Date),
        ETypeV::Timestamp { unit, zone } => match zone {
            Some(z) => Ok(
                PKindV::PrecisionTimestampZone { precision: unit_precision(unit), zone: z },
            ),
            None => Ok(PKindV::PrecisionTimestamp { precision: unit_precision(unit) }),
        },
        ETypeV::Utf8 => Ok(PKindV::Str),
        ETypeV::LargeUtf8 => Ok(PKindV::LargeStr),
        ETypeV::Utf8View => Ok(PKindV::ViewStr),
        ETypeV::Binary => Ok(PKindV::Bin),
        ETypeV::LargeBinary => Ok(PKindV::LargeBin),
        ETypeV::BinaryView => Ok(PKindV::ViewBin),
        ETypeV::FixedBinary { width } => Ok(PKindV::FixedBin { width }),
        ETypeV::List { elem, elem_nullable } => match enc_type(*elem, elem_nullable) {
            Ok(e) => Ok(PKindV::List { elem: Box::new(e) }),
            Err(e) => Err(e),
        },
        ETypeV::LargeList { elem, elem_nullable } => match enc_type(*elem, elem_nullable) {
            Ok(e) => Ok(PKindV::LargeList { elem: Box::new(e) }),
            Err(e) => Err(e),
        },
        ETypeV::Struct { fields } => match enc_schema(fields) {
            Ok(fs) => Ok(PKindV::Struct { fields: fs }),
            Err(e) => Err(e),
        },
        ETypeV::Duration { .. } => Err(TranslateError::UnsupportedType),
        ETypeV::Interval => Err(TranslateError::UnsupportedType),
    }
}

/// Encoding of one named, nullable engine field.
pub open spec fn enc_field(f: EFieldV) -> Result<PFieldV, TranslateError>
    decreases f, 2int,
{
    match enc_type(f.ty, f.nullable) {
        Ok(t) => Ok(PFieldV { name: f.name, ty: t }),
        Err(e) => Err(e),
    }
}

/// Encoding of an ordered field list (a schema, or struct fields), stopping
/// at the first untranslatable field.
pub open spec fn enc_schema(s: Seq<EFieldV>) -> Result<Seq<PFieldV>, TranslateError>
    decreases s, 3int,
{
    if s.len() == 0 {
        Ok(Seq::empty())
    } else {
        match enc_schema(s.drop_last()) {
            Ok(rest) => match enc_field(s.last()) {
                Ok(f) => Ok(rest.push(f)),
                Err(e) => Err(e),
            },
            Err(e) => Err(e),
        }
    }
}

/// Decoding of a portable type back to an engine type and the nullability of
/// the slot holding it.
pub open spec fn dec_type(p: PTypeV) -> Result<(ETypeV, bool), TranslateError>
    decreases p, 1int,
{
    match dec_kind(p.kind) {
        Ok(t) => Ok((t, p.nullable)),
        Err(e) => Err(e),
    }
}

/// Decoding of the kind part of a portable type.
pub open spec fn dec_kind(k: PKindV) -> Result<ETypeV, TranslateError>
    decreases k, 0int,
{
    match k {
        PKindV::Bool => Ok(ETypeV::Bool),
        PKindV::I8 => Ok(ETypeV::Int8),
        PKindV::I16 => Ok(ETypeV::Int16),
        PKindV::I32 => Ok(ETypeV::Int32),
        PKindV::I64 => Ok(ETypeV::Int64),
        PKindV::U8 => Ok(ETypeV::UInt8),
        PKindV::U16 => Ok(ETypeV::UInt16),
        PKindV::U32 => Ok(ETypeV::UInt32),
        PKindV::U64 => Ok(ETypeV::UInt64),
        PKindV::Fp32 => Ok(ETypeV::Float32),
        PKindV::Fp64 => Ok(ETypeV::Float64),
        PKindV::Decimal { precision, scale } => if precision <= max_decimal_precision() {
            Ok(ETypeV::Decimal { precision, scale })
        } else {
            Err(TranslateError::UnsupportedType)
        },
        PKindV::Date => Ok(ETypeV::Date),
        PKindV::PrecisionTimestamp { precision } => match precision_unit(precision) {
            Some(u) => Ok(ETypeV::Timestamp { unit: u, zone: None }),
            None => Err(TranslateError::UnsupportedType),
        },
        PKindV::PrecisionTimestampZone { precision, zone } => match precision_unit(precision) {
            Some(u) => Ok(ETypeV::Timestamp { unit: u, zone: Some(zone) }),
            None => Err(TranslateError::UnsupportedType),
        },
        PKindV::Str => Ok(ETypeV::Utf8),
        PKindV::LargeStr => Ok(ETypeV::LargeUtf8),
        PKindV::ViewStr => Ok(ETypeV::Utf8View),
        PKindV::Bin => Ok(ETypeV::Binary),
        PKindV::LargeBin => Ok(ETypeV::LargeBinary),
        PKindV::ViewBin => Ok(ETypeV::BinaryView),
        PKindV::FixedBin { width } => Ok(ETypeV::FixedBinary { width }),
        PKindV::List { elem } => match dec_type(*elem) {
            Ok((t, n)) => Ok(ETypeV::List { elem: Box::new(t), elem_nullable: n }),
            Err(e) => Err(e),
        },
        PKindV::LargeList { elem } => match dec_type(*elem) {
            Ok((t, n)) => Ok(ETypeV::LargeList { elem: Box::new(t), elem_nullable: n }),
            Err(e) => Err(e),
        },
        PKindV::Struct { fields } => match dec_schema(fields) {
            Ok(fs) => Ok(ETypeV::Struct { fields: fs }),
            Err(e) => Err(e),
        },
        PKindV::UserDefined { .. } => Err(TranslateError::UnsupportedType),
    }
}

/// Decoding of one portable schema entry.
pub open spec fn dec_field(f: PFieldV) -> Result<EFieldV, TranslateError>
    decreases f, 2int,
{
    match dec_type(f.ty) {
        Ok((t, n)) => Ok(EFieldV { name: f.name, ty: t, nullable: n }),
        Err(e) => Err(e),
    }
}

/// Decoding of an ordered portable field list.
pub open spec fn dec_schema(s: Seq<PFieldV>) -> Result<Seq<EFieldV>, TranslateError>
    decreases s, 3int,
{
    if s.len() == 0 {
        Ok(Seq::empty())
    } else {
        match dec_schema(s.drop_last()) {
            Ok(rest) => match dec_field(s.last()) {
                Ok(f) => Ok(rest.push(f)),
                Err(e) => Err(e),
            },
            Err(e) => Err(e),
        }
    }
}

// ---------------------------------------------------------------------------
// Laws of the type codec.
// ---------------------------------------------------------------------------
/// Whatever the type codec encodes, it decodes back to exactly the type and
/// nullability it started from.
pub proof fn lemma_type_roundtrip(t: ETypeV, nullable: bool)
    ensures
        enc_type(t, nullable) matches Ok(p) ==> dec_type(p) == Ok::<_, TranslateError>(
            (t, nullable),
        ),
    decreases t,
{
    match t {
        ETypeV::List { elem, elem_nullable } => {
            lemma_type_roundtrip(*elem, elem_nullable);
        },
        ETypeV::LargeList { elem, elem_nullable } => {
            lemma_type_roundtrip(*elem, elem_nullable);
        },
        ETypeV::Struct { fields } => {
            lemma_schema_roundtrip(fields);
            if enc_schema(fields) is Ok {
                let fs = enc_schema(fields)->Ok_0;
                assert(dec_kind(PKindV::Struct { fields: fs }) == Ok::<_, TranslateError>(t));
            }
        },
        _ => {},
    }
}

/// Whatever the schema codec encodes, it decodes back to the field list it
/// started from.
pub proof fn lemma_schema_roundtrip(s: Seq<EFieldV>)
    ensures
        enc_schema(s) matches Ok(ps) ==> dec_schema(ps) == Ok::<_, TranslateError>(s),
    decreases s,
{
    if s.len() > 0 {
        lemma_schema_roundtrip(s.drop_last());
        if enc_schema(s) is Ok {
            let ps = enc_schema(s)->Ok_0;
            let rest = enc_schema(s.drop_last())->Ok_0;
            let f = enc_field(s.last())->Ok_0;
            let lastf = s.last();
            lemma_type_roundtrip(lastf.ty, lastf.nullable);
            assert(lastf =~= EFieldV { name: lastf.name, ty: lastf.ty, nullable: lastf.nullable });
            assert(dec_field(f) == Ok::<_, TranslateError>(lastf));
            assert(ps.drop_last() =~= rest);
            assert(ps.last() == f);
            assert(dec_schema(ps) == Ok::<_, TranslateError>(s.drop_last().push(lastf)));
            assert(s.drop_last().push(lastf) =~= s);
        }
    } else {
        if enc_schema(s) is Ok {
            let ps = enc_schema(s)->Ok_0;
            assert(ps.len() == 0);
            assert(dec_schema(ps)->Ok_0 =~= s);
        }
    }
}

// ---------------------------------------------------------------------------
// Executable codec.
// ---------------------------------------------------------------------------
/// Encodes an engine type (with the nullability of its slot) as a portable
/// type, exactly as [`enc_type`] specifies.
pub fn encode_type(t: &EngineType, nullable: bool) -> (r: Result<PortableType, TranslateError>)
    ensures
        (match r {
            Ok(p) => enc_type(t@, nullable) == Ok::<_, TranslateError>(p@),
            Err(e) => enc_type(t@, nullable) == Err::<PTypeV, _>(e),
        }),
    decreases *t,
{
    let kind: PTypeKind = match t {
        EngineType::Bool => PTypeKind::Bool,
        EngineType::Int8 => PTypeKind::I8,
        EngineType::Int16 => PTypeKind::I16,
        EngineType::Int32 => PTypeKind::I32,
        EngineType::Int64 => PTypeKind::I64,
        EngineType::UInt8 => PTypeKind::U8,
        EngineType::UInt16 => PTypeKind::U16,
        EngineType::UInt32 => PTypeKind::U32,
        EngineType::UInt64 => PTypeKind::U64,
        EngineType::Float32 => PTypeKind::Fp32,
        EngineType::Float64 => PTypeKind::Fp64,
        EngineType::Decimal { precision, scale } => {
            if *precision <= 38 {
                PTypeKind::Decimal { precision: *precision, scale: *scale }
            } else {
                return Err(TranslateError::UnsupportedType);
            }
        },
        EngineType::Date => PTypeKind::Date,
        EngineType::Timestamp { unit, zone } => {
            let precision: u8 = match unit {
                TimeUnit::Second => 0,
                TimeUnit::Millisecond => 3,
                TimeUnit::Microsecond => 6,
                TimeUnit::Nanosecond => 9,
            };
            match zone {
                Some(z) => PTypeKind::PrecisionTimestampZone { precision, zone: z.clone() },
                None => PTypeKind::PrecisionTimestamp { precision },
            }
        },
        EngineType::Utf8 => PTypeKind::Str,
        EngineType::LargeUtf8 => PTypeKind::LargeStr,
        EngineType::Utf8View => PTypeKind::ViewStr,
        EngineType::Binary => PTypeKind::Bin,
        EngineType::LargeBinary => PTypeKind::LargeBin,
        EngineType::BinaryView => PTypeKind::ViewBin,
        EngineType::FixedBinary { width } => PTypeKind::FixedBin { width: *width },
        EngineType::List { elem, elem_nullable } => {
            match encode_type(elem, *elem_nullable) {
                Ok(e) => PTypeKind::List { elem: Box::new(e) },
                Err(e) => {
                    return Err(e);
                },
            }
        },
        EngineType::LargeList { elem, elem_nullable } => {
            match encode_type(elem, *elem_nullable) {
                Ok(e) => PTypeKind::LargeList { elem: Box::new(e) },
                Err(e) => {
                    return Err(e);
                },
            }
        },
        EngineType::Struct { fields } => {
            match encode_schema(fields) {
                Ok(fs) => PTypeKind::Struct { fields: fs },
                Err(e) => {
                    return Err(e);
                },
            }
        },
        EngineType::Duration { .. } => {
            return Err(TranslateError::UnsupportedType);
        },
        EngineType::Interval => {
            return Err(TranslateError::UnsupportedType);
        },
    };
    Ok(PortableType { nullable, kind })
}

/// Encodes an ordered engine field list (a schema or struct fields), exactly
/// as [`enc_schema`] specifies.
pub fn encode_schema(fields: &Vec<EField>) -> (r: Result<Vec<PField>, TranslateError>)
    ensures
        (match r {
            Ok(ps) => enc_schema(efields_view(fields@)) == Ok::<_, TranslateError>(
                pfields_view(ps@),
            ),
            Err(e) => enc_schema(efields_view(fields@)) == Err::<Seq<PFieldV>, _>(e),
        }),
    decreases fields,
{
    let ghost sv = efields_view(fields@);
    proof {
        crate::types::lemma_efields_view_index(fields@);
    }
    let mut out: Vec<PField> = Vec::new();
    let mut i: usize = 0;
    while i < fields.len()
        invariant
            i <= fields.len(),
            sv == efields_view(fields@),
            sv.len() == fields@.len(),
            forall|j: int| 0 <= j < fields@.len() ==> sv[j] == crate::types::efield_view(
                fields@[j],
            ),
            enc_schema(sv.subrange(0, i as int)) == Ok::<_, TranslateError>(pfields_view(out@)),
        decreases fields.len() - i,
    {
        let f = &fields[i];
        let ghost out_pre = out@;
        match encode_type(&f.ty, f.nullable) {
            Ok(t) => {
                out.push(PField { name: f.name.clone(), ty: t });
                proof {
                    lemma_enc_schema_unfold_prefix(sv, i as int);
                    assert(out@.drop_last() =~= out_pre);
                    assert(enc_field(sv[i as int]) == Ok::<_, TranslateError>(
                        pfield_view(out@.last()),
                    ));
                }
            },
            Err(e) => {
                proof {
                    lemma_enc_schema_unfold_prefix(sv, i as int);
                    lemma_enc_schema_err_extends(sv, i as int + 1);
                }
                return Err(e);
            },
        }
        i = i + 1;
    }
    proof {
        assert(sv.subrange(0, fields@.len() as int) =~= sv);
    }
    Ok(out)
}

/// Decodes a portable type back to an engine type plus slot nullability,
/// exactly as [`dec_type`] specifies.
pub fn decode_type(p: &PortableType) -> (r: Result<(EngineType, bool), TranslateError>)
    ensures
        (match r {
            Ok(tn) => dec_type(p@) == Ok::<_, TranslateError>((tn.0@, tn.1)),
            Err(e) => dec_type(p@) == Err::<(ETypeV, bool), _>(e),
        }),
    decreases *p,
{
    let t: EngineType = match &p.kind {
        PTypeKind::Bool => EngineType::Bool,
        PTypeKind::I8 => EngineType::Int8,
        PTypeKind::I16 => EngineType::Int16,
        PTypeKind::I32 => EngineType::Int32,
        PTypeKind::I64 => EngineType::Int64,
        PTypeKind::U8 => EngineType::UInt8,
        PTypeKind::U16 => EngineType::UInt16,
        PTypeKind::U32 => EngineType::UInt32,
        PTypeKind::U64 => EngineType::UInt64,
        PTypeKind::Fp32 => EngineType::Float32,
        PTypeKind::Fp64 => EngineType::Float64,
        PTypeKind::Decimal { precision, scale } => {
            if *precision <= 38 {
                EngineType::Decimal { precision: *precision, scale: *scale }
            } else {
                return Err(TranslateError::UnsupportedType);
            }
        },
        PTypeKind::Date => EngineType::Date,
        PTypeKind::PrecisionTimestamp { precision } => {
            match decode_precision(*precision) {
                Some(u) => EngineType::Timestamp { unit: u, zone: None },
                None => {
                    return Err(TranslateError::UnsupportedType);
                },
            }
        },
        PTypeKind::PrecisionTimestampZone { precision, zone } => {
            match decode_precision(*precision) {
                Some(u) => EngineType::Timestamp { unit: u, zone: Some(zone.clone()) },
                None => {
                    return Err(TranslateError::UnsupportedType);
                },
            }
        },
        PTypeKind::Str => EngineType::Utf8,
        PTypeKind::LargeStr => EngineType::LargeUtf8,
        PTypeKind::ViewStr => EngineType::Utf8View,
        PTypeKind::Bin => EngineType::Binary,
        PTypeKind::LargeBin => EngineType::LargeBinary,
        PTypeKind::ViewBin => EngineType::BinaryView,
        PTypeKind::FixedBin { width } => EngineType::FixedBinary { width: *width },
        PTypeKind::List { elem } => {
            match decode_type(elem) {
                Ok((t, n)) => EngineType::List { elem: Box::new(t), elem_nullable: n },
                Err(e) => {
                    return Err(e);
                },
            }
        },
        PTypeKind::LargeList { elem } => {
            match decode_type(elem) {
                Ok((t, n)) => EngineType::LargeList { elem: Box::new(t), elem_nullable: n },
                Err(e) => {
                    return Err(e);
                },
            }
        },
        PTypeKind::Struct { fields } => {
            match decode_schema(fields) {
                Ok(fs) => EngineType::Struct { fields: fs },
                Err(e) => {
                    return Err(e);
                },
            }
        },
        PTypeKind::UserDefined { .. } => {
            return Err(TranslateError::UnsupportedType);
        },
    };
    Ok((t, p.nullable))
}

/// Decodes an ordered portable field list, exactly as [`dec_schema`]
/// specifies.
pub fn decode_schema(fields: &Vec<PField>) -> (r: Result<Vec<EField>, TranslateError>)
    ensures
        (match r {
            Ok(es) => dec_schema(pfields_view(fields@)) == Ok::<_, TranslateError>(
                efields_view(es@),
            ),
            Err(e) => dec_schema(pfields_view(fields@)) == Err::<Seq<EFieldV>, _>(e),
        }),
    decreases fields,
{
    let ghost sv = pfields_view(fields@);
    proof {
        crate::ptypes::lemma_pfields_view_index(fields@);
    }
    let mut out: Vec<EField> = Vec::new();
    let mut i: usize = 0;
    while i < fields.len()
        invariant
            i <= fields.len(),
            sv == pfields_view(fields@),
            sv.len() == fields@.len(),
            forall|j: int| 0 <= j < fields@.len() ==> sv[j] == pfield_view(
                fields@[j],
            ),
            dec_schema(sv.subrange(0, i as int)) == Ok::<_, TranslateError>(efields_view(out@)),
        decreases fields.len() - i,
    {
        let f = &fields[i];
        let ghost out_pre = out@;
        match decode_type(&f.ty) {
            Ok((t, n)) => {
                out.push(EField { name: f.name.clone(), ty: t, nullable: n });
                proof {
                    lemma_dec_schema_unfold_prefix(sv, i as int);
                    assert(out@.drop_last() =~= out_pre);
                    assert(dec_field(sv[i as int]) == Ok::<_, TranslateError>(
                        crate::types::efield_view(out@.last()),
                    ));
                }
            },
            Err(e) => {
                proof {
                    lemma_dec_schema_unfold_prefix(sv, i as int);
                    lemma_dec_schema_err_extends(sv, i as int + 1);
                }
                return Err(e);
            },
        }
        i = i + 1;
    }
    proof {
        assert(sv.subrange(0, fields@.len() as int) =~= sv);
    }
    Ok(out)
}

/// The executable counterpart of [`precision_unit`].
pub(crate) fn decode_precision(p: u8) -> (r: Option<TimeUnit>)
    ensures
        r == precision_unit(p),
{
    if p == 0 {
        Some(TimeUnit::Second)
    } else if p == 3 {
        Some(TimeUnit::Millisecond)
    } else if p == 6 {
        Some(TimeUnit::Microsecond)
    } else if p == 9 {
        Some(TimeUnit::Nanosecond)
    } else {
        None
    }
}

// ---------------------------------------------------------------------------
// Prefix lemmas used by the loops above.
// ---------------------------------------------------------------------------
/// One unfolding step of [`enc_schema`] over a growing prefix.
proof fn lemma_enc_schema_unfold_prefix(s: Seq<EFieldV>, i: int)
    requires
        0 <= i < s.len(),
    ensures
        enc_schema(s.subrange(0, i + 1)) == (match enc_schema(s.subrange(0, i)) {
            Ok(rest) => match enc_field(s[i]) {
                Ok(f) => Ok::<_, TranslateError>(rest.push(f)),
                Err(e) => Err(e),
            },
            Err(e) => Err(e),
        }),
{
    let pre = s.subrange(0, i + 1);
    assert(pre.drop_last() =~= s.subrange(0, i));
    assert(pre.last() == s[i]);
}

/// Once a prefix fails to encode, the whole field list fails the same way.
proof fn lemma_enc_schema_err_extends(s: Seq<EFieldV>, i: int)
    requires
        0 <= i <= s.len(),
        enc_schema(s.subrange(0, i)) is Err,
    ensures
        enc_schema(s) == enc_schema(s.subrange(0, i)),
    decreases s.len(),
{
    if i == s.len() {
        assert(s.subrange(0, i) =~= s);
    } else {
        assert(s.drop_last().subrange(0, i) =~= s.subrange(0, i));
        lemma_enc_schema_err_extends(s.drop_last(), i);
    }
}

/// One unfolding step of [`dec_schema`] over a growing prefix.
proof fn lemma_dec_schema_unfold_prefix(s: Seq<PFieldV>, i: int)
    requires
        0 <= i < s.len(),
    ensures
        dec_schema(s.subrange(0, i + 1)) == (match dec_schema(s.subrange(0, i)) {
            Ok(rest) => match dec_field(s[i]) {
                Ok(f) => Ok::<_, TranslateError>(rest.push(f)),
                Err(e) => Err(e),
            },
            Err(e) => Err(e),
        }),
{
    let pre = s.subrange(0, i + 1);
    assert(pre.drop_last() =~= s.subrange(0, i));
    assert(pre.last() == s[i]);
}

/// Once a prefix fails to decode, the whole field list fails the same way.
proof fn lemma_dec_schema_err_extends(s: Seq<PFieldV>, i: int)
    requires
        0 <= i <= s.len(),
        dec_schema(s.subrange(0, i)) is Err,
    ensures
        dec_schema(s) == dec_schema(s.subrange(0, i)),
    decreases s.len(),
{
    if i == s.len() {
        assert(s.subrange(0, i) =~= s);
    } else {
        assert(s.drop_last().subrange(0, i) =~= s.subrange(0, i));
        lemma_dec_schema_err_extends(s.drop_last(), i);
    }
}

} // verus!
