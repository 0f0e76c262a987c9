use vstd::prelude::*;

verus! {

/// The unit a timestamp is counted in.
#[derive(Clone, Copy, Debug, PartialEq, Eq, Structural)]
pub enum TimeUnit {
    Second,
    Millisecond,
    Microsecond,
    Nanosecond,
}

/// A scalar or nested type of the engine-internal type system.
///
/// `Duration` and `Interval` stand outside the supported translation set:
/// the codec rejects them with `UnsupportedType`.
#[derive(Debug, PartialEq)]
pub enum EngineType {
    Bool,
    Int8,
    Int16,
    Int32,
    Int64,
    UInt8,
    UInt16,
    UInt32,
    UInt64,
    Float32,
    Float64,
    /// Fixed-point decimal with decimal digit precision and scale.
    Decimal { precision: u8, scale: i8 },
    /// Date as a 32-bit day count.
    Date,
    /// Timestamp in the given unit, with or without a time-zone name.
    Timestamp { unit: TimeUnit, zone: Option<String> },
    Utf8,
    LargeUtf8,
    Utf8View,
    Binary,
    LargeBinary,
    BinaryView,
    /// Binary of a fixed byte width.
    FixedBinary { width: u32 },
    /// List with a recursively typed, nullable-or-not element.
    List { elem: Box<EngineType>, elem_nullable: bool },
    LargeList { elem: Box<EngineType>, elem_nullable: bool },
    /// Ordered named fields, each independently nullable.
    Struct { fields: Vec<EField> },
    /// Not translatable; the codec fails on it.
    Duration { unit: TimeUnit },
    /// Not translatable; the codec fails on it.
    Interval,
}

/// One column or struct field of the engine: name, type, nullability.
#[derive(Debug, PartialEq)]
pub struct EField {
    pub name: String,
    pub ty: EngineType,
    pub nullable: bool,
}

/// Mathematical model of an [`EngineType`].
#[verifier::ext_equal]
pub enum ETypeV {
    Bool,
    Int8,
    Int16,
    Int32,
    Int64,
    UInt8,
    UInt16,
    UInt32,
    UInt64,
    Float32,
    Float64,
    Decimal { precision: u8, scale: i8 },
    Date,
    Timestamp { unit: TimeUnit, zone: Option<Seq<char>> },
    Utf8,
    LargeUtf8,
    Utf8View,
    Binary,
    LargeBinary,
    BinaryView,
    FixedBinary { width: u32 },
    List { elem: Box<ETypeV>, elem_nullable: bool },
    LargeList { elem: Box<ETypeV>, elem_nullable: bool },
    Struct { fields: Seq<EFieldV> },
    Duration { unit: TimeUnit },
    Interval,
}

/// Mathematical model of an [`EField`].
#[verifier::ext_equal]
pub struct EFieldV {
    pub name: Seq<char>,
    pub ty: ETypeV,
    pub nullable: bool,
}

/// The model of a sequence of engine fields, elementwise.
pub open spec fn efields_view(s: Seq<EField>) -> Seq<EFieldV>
    decreases s,
{
    if s.len() == 0 {
        Seq::empty()
    } else {
        efields_view(s.drop_last()).push(efield_view(s.last()))
    }
}

/// The model of one engine field.
pub open spec fn efield_view(f: EField) -> EFieldV
    decreases f,
{
    EFieldV { name: f.name@, ty: etype_view(f.ty), nullable: f.nullable }
}

/// The model of an engine type.
pub open spec fn etype_view(t: EngineType) -> ETypeV
    decreases t,
{
    match t {
        EngineType::Bool => ETypeV::Bool,
        EngineType::Int8 => ETypeV::Int8,
        EngineType::Int16 => ETypeV::Int16,
        EngineType::Int32 => ETypeV::Int32,
        EngineType::Int64 => ETypeV::Int64,
        EngineType::UInt8 => ETypeV::UInt8,
        EngineType::UInt16 => ETypeV::UInt16,
        EngineType::UInt32 => ETypeV::UInt32,
        EngineType::UInt64 => ETypeV::UInt64,
        EngineType::Float32 => ETypeV::Float32,
        EngineType::Float64 => ETypeV::Float64,
        EngineType::Decimal { precision, scale } => ETypeV::Decimal { precision, scale },
        EngineType::Date => ETypeV::Date,
        EngineType::Timestamp { unit, zone } => ETypeV::Timestamp {
            unit,
            zone: match zone {
                Some(z) => Some(z@),
                None => None,
            },
        },
        EngineType::Utf8 => ETypeV::Utf8,
        EngineType::LargeUtf8 => ETypeV::LargeUtf8,
        EngineType::Utf8View => ETypeV::Utf8View,
        EngineType::Binary => ETypeV::Binary,
        EngineType::LargeBinary => ETypeV::LargeBinary,
        EngineType::BinaryView => ETypeV::BinaryView,
        EngineType::FixedBinary { width } => ETypeV::FixedBinary { width },
        EngineType::List { elem, elem_nullable } => ETypeV::List {
            elem: Box::new(etype_view(*elem)),
            elem_nullable,
        },
        EngineType::LargeList { elem, elem_nullable } => ETypeV::LargeList {
            elem: Box::new(etype_view(*elem)),
            elem_nullable,
        },
        EngineType::Struct { fields } => ETypeV::Struct { fields: efields_view(fields@) },
        EngineType::Duration { unit } => ETypeV::Duration { unit },
        EngineType::Interval => ETypeV::Interval,
    }
}

impl View for EngineType {
    type V = ETypeV;

    open spec fn view(&self) -> ETypeV {
        etype_view(*self)
    }
}

impl View for EField {
    type V = EFieldV;

    open spec fn view(&self) -> EFieldV {
        efield_view(*self)
    }
}

/// Field-sequence views are elementwise.
pub proof fn lemma_efields_view_index(s: Seq<EField>)
    ensures
        efields_view(s).len() == s.len(),
        forall|i: int| 0 <= i < s.len() ==> efields_view(s)[i] == efield_view(s[i]),
    decreases s,
{
    if s.len() > 0 {
        lemma_efields_view_index(s.drop_last());
    }
}

/// A field sequence is well-formed when its column names are pairwise
/// distinct — the structural invariant every node's output schema keeps.
pub open spec fn distinct_names(s: Seq<EFieldV>) -> bool {
    forall|i: int, j: int| 0 <= i < j < s.len() ==> s[i].name != s[j].name
}

/// Field-sequence views distribute over concatenation.
pub proof fn lemma_efields_view_concat(a: Seq<EField>, b: Seq<EField>)
    ensures
        efields_view(a + b) == efields_view(a) + efields_view(b),
{
    lemma_efields_view_index(a);
    lemma_efields_view_index(b);
    lemma_efields_view_index(a + b);
    assert(efields_view(a + b) =~= efields_view(a) + efields_view(b));
}

/// Copies an engine type, preserving its model.
pub fn clone_etype(t: &EngineType) -> (r: EngineType)
    ensures
        r@ == t@,
    decreases *t,
{
    match t {
        EngineType::Bool => EngineType::Bool,
        EngineType::Int8 => EngineType::Int8,
        EngineType::Int16 => EngineType::Int16,
        EngineType::Int32 => EngineType::Int32,
        EngineType::Int64 => EngineType::Int64,
        EngineType::UInt8 => EngineType::UInt8,
        EngineType::UInt16 => EngineType::UInt16,
        EngineType::UInt32 => EngineType::UInt32,
        EngineType::UInt64 => EngineType::UInt64,
        EngineType::Float32 => EngineType::Float32,
        EngineType::Float64 => EngineType::Float64,
        EngineType::Decimal { precision, scale } => EngineType::Decimal {
            precision: *precision,
            scale: *scale,
        },
        EngineType::Date => EngineType::Date,
        EngineType::Timestamp { unit, zone } => EngineType::Timestamp {
            unit: *unit,
            zone: match zone {
                Some(z) => Some(z.clone()),
                None => None,
            },
        },
        EngineType::Utf8 => EngineType::Utf8,
        EngineType::LargeUtf8 => EngineType::LargeUtf8,
        EngineType::Utf8View => EngineType::Utf8View,
        EngineType::Binary => EngineType::Binary,
        EngineType::LargeBinary => EngineType::LargeBinary,
        EngineType::BinaryView => EngineType::BinaryView,
        EngineType::FixedBinary { width } => EngineType::FixedBinary { width: *width },
        EngineType::List { elem, elem_nullable } => EngineType::List {
            elem: Box::new(clone_etype(elem)),
            elem_nullable: *elem_nullable,
        },
        EngineType::LargeList { elem, elem_nullable } => EngineType::LargeList {
            elem: Box::new(clone_etype(elem)),
            elem_nullable: *elem_nullable,
        },
        EngineType::Struct { fields } => EngineType::Struct { fields: clone_efields(fields) },
        EngineType::Duration { unit } => EngineType::Duration { unit: *unit },
        EngineType::Interval => EngineType::Interval,
    }
}

/// Copies one engine field, preserving its model.
pub fn clone_efield(f: &EField) -> (r: EField)
    ensures
        r@ == f@,
    decreases *f,
{
    EField { name: f.name.clone(), ty: clone_etype(&f.ty), nullable: f.nullable }
}

/// Copies an engine field list, preserving its model.
pub fn clone_efields(fields: &Vec<EField>) -> (r: Vec<EField>)
    ensures
        efields_view(r@) == efields_view(fields@),
        r@.len() == fields@.len(),
    decreases fields,
{
    proof {
        lemma_efields_view_index(fields@);
    }
    let mut out: Vec<EField> = Vec::new();
    let mut i: usize = 0;
    while i < fields.len()
        invariant
            i <= fields.len(),
            out@.len() == i,
            forall|j: int| 0 <= j < i ==> efield_view(out@[j]) == efield_view(fields@[j]),
        decreases fields.len() - i,
    {
        out.push(clone_efield(&fields[i]));
        i = i + 1;
    }
    proof {
        lemma_efields_view_index(out@);
        assert(efields_view(out@) =~= efields_view(fields@));
    }
    out
}

} // verus!
