use vstd::prelude::*;

verus! {

/// A type of the portable encoding: a kind plus intrinsic nullability.
///
/// The portable type system carries nullability on the type itself, while
/// the engine keeps it on the field — the codec converts between the two.
#[derive(Debug, PartialEq)]
pub struct PortableType {
    pub nullable: bool,
    pub kind: PTypeKind,
}

/// The kind of a portable type.
///
/// Timestamps are parameterized by a decimal sub-second precision
/// (0, 3, 6 or 9); any other precision is not decodable.  `UserDefined`
/// is carried for completeness but stands outside the supported set.
#[derive(Debug, PartialEq)]
pub enum PTypeKind {
    Bool,
    I8,
    I16,
    I32,
    I64,
    U8,
    U16,
    U32,
    U64,
    Fp32,
    Fp64,
    Decimal { precision: u8, scale: i8 },
    Date,
    /// Timestamp without time zone, sub-second digits 0/3/6/9.
    PrecisionTimestamp { precision: u8 },
    /// Time-zone aware timestamp, sub-second digits 0/3/6/9.
    PrecisionTimestampZone { precision: u8, zone: String },
    Str,
    LargeStr,
    ViewStr,
    Bin,
    LargeBin,
    ViewBin,
    FixedBin { width: u32 },
    List { elem: Box<PortableType> },
    LargeList { elem: Box<PortableType> },
    Struct { fields: Vec<PField> },
    /// An extension type referenced by anchor; not decodable here.
    UserDefined { reference: u32 },
}

/// One named entry of a portable schema (`NamedStruct`).
#[derive(Debug, PartialEq)]
pub struct PField {
    pub name: String,
    pub ty: PortableType,
}

/// Mathematical model of a [`PortableType`].
#[verifier::ext_equal]
pub struct PTypeV {
    pub nullable: bool,
    pub kind: PKindV,
}

/// Mathematical model of a [`PTypeKind`].
#[verifier::ext_equal]
pub enum PKindV {
    Bool,
    I8,
    I16,
    I32,
    I64,
    U8,
    U16,
    U32,
    U64,
    Fp32,
    Fp64,
    Decimal { precision: u8, scale: i8 },
    Date,
    PrecisionTimestamp { precision: u8 },
    PrecisionTimestampZone { precision: u8, zone: Seq<char> },
    Str,
    LargeStr,
    ViewStr,
    Bin,
    LargeBin,
    ViewBin,
    FixedBin { width: u32 },
    List { elem: Box<PTypeV> },
    LargeList { elem: Box<PTypeV> },
    Struct { fields: Seq<PFieldV> },
    UserDefined { reference: u32 },
}

/// Mathematical model of a [`PField`].
#[verifier::ext_equal]
pub struct PFieldV {
    pub name: Seq<char>,
    pub ty: PTypeV,
}

/// The model of a sequence of portable fields, elementwise.
pub open spec fn pfields_view(s: Seq<PField>) -> Seq<PFieldV>
    decreases s,
{
    if s.len() == 0 {
        Seq::empty()
    } else {
        pfields_view(s.drop_last()).push(pfield_view(s.last()))
    }
}

/// The model of one portable field.
pub open spec fn pfield_view(f: PField) -> PFieldV
    decreases f,
{
    PFieldV { name: f.name@, ty: ptype_view(f.ty) }
}

/// The model of a portable type.
pub open spec fn ptype_view(t: PortableType) -> PTypeV
    decreases t,
{
    PTypeV { nullable: t.nullable, kind: pkind_view(t.kind) }
}

/// The model of a portable type kind.
pub open spec fn pkind_view(k: PTypeKind) -> PKindV
    decreases k,
{
    match k {
        PTypeKind::Bool => PKindV::Bool,
        PTypeKind::I8 => PKindV::I8,
        PTypeKind::I16 => PKindV::I16,
        PTypeKind::I32 => PKindV::I32,
        PTypeKind::I64 => PKindV::I64,
        PTypeKind::U8 => PKindV::U8,
        PTypeKind::U16 => PKindV::U16,
        PTypeKind::U32 => PKindV::U32,
        PTypeKind::U64 => PKindV::U64,
        PTypeKind::Fp32 => PKindV::Fp32,
        PTypeKind::Fp64 => PKindV::Fp64,
        PTypeKind::Decimal { precision, scale } => PKindV::Decimal { precision, scale },
        PTypeKind::Date => PKindV::Date,
        PTypeKind::PrecisionTimestamp { precision } => PKindV::PrecisionTimestamp { precision },
        PTypeKind::PrecisionTimestampZone { precision, zone } => PKindV::PrecisionTimestampZone {
            precision,
            zone: zone@,
        },
        PTypeKind::Str => PKindV::Str,
        PTypeKind::LargeStr => PKindV::LargeStr,
        PTypeKind::ViewStr => PKindV::ViewStr,
        PTypeKind::Bin => PKindV::Bin,
        PTypeKind::LargeBin => PKindV::LargeBin,
        PTypeKind::ViewBin => PKindV::ViewBin,
        PTypeKind::FixedBin { width } => PKindV::FixedBin { width },
        PTypeKind::List { elem } => PKindV::List { elem: Box::new(ptype_view(*elem)) },
        PTypeKind::LargeList { elem } => PKindV::LargeList { elem: Box::new(ptype_view(*elem)) },
        PTypeKind::Struct { fields } => PKindV::Struct { fields: pfields_view(fields@) },
        PTypeKind::UserDefined { reference } => PKindV::UserDefined { reference },
    }
}

impl View for PortableType {
    type V = PTypeV;

    open spec fn view(&self) -> PTypeV {
        ptype_view(*self)
    }
}

impl View for PField {
    type V = PFieldV;

    open spec fn view(&self) -> PFieldV {
        pfield_view(*self)
    }
}

/// Portable field-sequence views are elementwise.
pub proof fn lemma_pfields_view_index(s: Seq<PField>)
    ensures
        pfields_view(s).len() == s.len(),
        forall|i: int| 0 <= i < s.len() ==> pfields_view(s)[i] == pfield_view(s[i]),
    decreases s,
{
    if s.len() > 0 {
        lemma_pfields_view_index(s.drop_last());
    }
}

} // verus!
