use vstd::prelude::*;
use vstd::seq_lib::*;
use crate::error::TranslateError;
use crate::codec::enc_schema;
use crate::expr_xlate::{produce_expr, produce_exprs, has_col};
use crate::plan::{
    PlanV, PRelV, PEmitV, PPlanV, WriteTargetV, WriteOp, CreateMode, OutputMode, SetKind,
    schema_of, schema_names, type_of, nullable_of, Plan, PRel, PCommon, PEmit, WriteTarget, PPlan,
};
use crate::registry::{ExtKeyV, Registry};
use crate::types::{EField, EFieldV, EngineType, efields_view};
use crate::expr::{Expr, ExprV};
use crate::literal::EngineLiteral;

verus! {

// ---------------------------------------------------------------------------
// Specification of the producer.
// ---------------------------------------------------------------------------
/// Whether an expression's output type can be read off against a schema:
/// only a column reference needs the schema, and it must resolve.
pub open spec fn expr_typeable(e: ExprV, schema: Seq<EFieldV>) -> bool {
    match e {
        ExprV::Column { name } => has_col(schema, name),
        _ => true,
    }
}

/// [`expr_typeable`] over a projection's expression list.
pub open spec fn exprs_typeable(s: Seq<ExprV>, schema: Seq<EFieldV>) -> bool {
    forall|i: int| 0 <= i < s.len() ==> expr_typeable(#[trigger] s[i], schema)
}

/// Production of a logical plan node as a portable relation, threading the
/// extension declaration list bottom-up, children first, left to right.
///
/// Policies, as the portable encoding asks:
/// - a node whose output matches its natural child order emits `Direct`;
///   a projection emits `Remap` selecting exactly its computed columns;
/// - nested same-kind binary set operations along the left spine are
///   flattened into one multi-input `SetRel` node;
/// - subquery aliases are dropped: the portable encoding has no relation
///   aliases, and collision repair is the consumer's duty;
/// - CREATE TABLE AS SELECT becomes a `Write` relation with operation
///   CREATE, create-mode "ignore if exists", output-mode "no output" and a
///   named-table target carrying the reference's 1-3 components.
pub open spec fn produce_rel(p: PlanV, exts: Seq<ExtKeyV>) -> Result<
    (PRelV, Seq<ExtKeyV>),
    TranslateError,
>
    decreases p, 0int,
{
    match p {
        PlanV::Read { table, schema } => match enc_schema(schema) {
            Ok(ps) => Ok(
                (PRelV::Read { names: table, schema: ps, emit: PEmitV::Direct }, exts),
            ),
            Err(e) => Err(e),
        },
        PlanV::Project { input, exprs, names } => {
            let insch = schema_of(*input);
            match produce_rel(*input, exts) {
                Ok((pi, s1)) => if names.len() != exprs.len() || !exprs_typeable(exprs, insch) {
                    Err(TranslateError::MalformedPlan)
                } else {
                    match produce_exprs(exprs, insch, s1) {
                        Ok((pes, s2)) => if insch.len() + exprs.len() > u64::MAX {
                            Err(TranslateError::MalformedPlan)
                        } else {
                            Ok(
                                (
                                    PRelV::Project {
                                        input: Box::new(pi),
                                        exprs: pes,
                                        emit: PEmitV::Remap(
                                            Seq::new(
                                                exprs.len(),
                                                |i: int| (insch.len() + i) as u64,
                                            ),
                                        ),
                                    },
                                    s2,
                                ),
                            )
                        },
                        Err(e) => Err(e),
                    }
                },
                Err(e) => Err(e),
            }
        },
        PlanV::Filter { input, predicate } => match produce_rel(*input, exts) {
            Ok((pi, s1)) => match produce_expr(predicate, schema_of(*input), s1) {
                Ok((pc, s2)) => Ok(
                    (
                        PRelV::Filter {
                            input: Box::new(pi),
                            condition: pc,
                            emit: PEmitV::Direct,
                        },
                        s2,
                    ),
                ),
                Err(e) => Err(e),
            },
            Err(e) => Err(e),
        },
        PlanV::Join { left, right, jt, on } => match produce_rel(*left, exts) {
            Ok((pl, s1)) => match produce_rel(*right, s1) {
                Ok((pr, s2)) => match produce_expr(
                    on,
                    schema_of(*left) + schema_of(*right),
                    s2,
                ) {
                    Ok((pon, s3)) => Ok(
                        (
                            PRelV::Join {
                                left: Box::new(pl),
                                right: Box::new(pr),
                                jt,
                                on: pon,
                                emit: PEmitV::Direct,
                            },
                            s3,
                        ),
                    ),
                    Err(e) => Err(e),
                },
                Err(e) => Err(e),
            },
            Err(e) => Err(e),
        },
        PlanV::SetOp { kind, left, right } => match produce_set_inputs(kind, *left, exts) {
            Ok((ins, s1)) => match produce_rel(*right, s1) {
                Ok((pr, s2)) => Ok(
                    (
                        PRelV::SetRel { kind, inputs: ins.push(pr), emit: PEmitV::Direct },
                        s2,
                    ),
                ),
                Err(e) => Err(e),
            },
            Err(e) => Err(e),
        },
        PlanV::Fetch { input, offset, count } => match produce_rel(*input, exts) {
            Ok((pi, s1)) => Ok(
                (PRelV::Fetch { input: Box::new(pi), offset, count, emit: PEmitV::Direct }, s1),
            ),
            Err(e) => Err(e),
        },
        PlanV::Sort { input, keys } => match produce_rel(*input, exts) {
            Ok((pi, s1)) => match produce_sortkeys(keys, schema_of(*input), s1) {
                Ok((pks, s2)) => Ok(
                    (
                        PRelV::Sort { input: Box::new(pi), keys: pks, emit: PEmitV::Direct },
                        s2,
                    ),
                ),
                Err(e) => Err(e),
            },
            Err(e) => Err(e),
        },
        PlanV::Alias { input, .. } => produce_rel(*input, exts),
        PlanV::CreateTable { name, input, .. } => match produce_rel(*input, exts) {
            Ok((pi, s1)) => match enc_schema(schema_of(*input)) {
                Ok(ts) => Ok(
                    (
                        PRelV::Write {
                            table_schema: ts,
                            op: WriteOp::Create,
                            input: Some(Box::new(pi)),
                            create_mode: CreateMode::IgnoreIfExists,
                            output_mode: OutputMode::NoOutput,
                            target: Some(WriteTargetV::NamedTable { names: name }),
                            emit: PEmitV::Direct,
                        },
                        s1,
                    ),
                ),
                Err(e) => Err(e),
            },
            Err(e) => Err(e),
        },
        PlanV::DropTable { .. } => Err(TranslateError::UnsupportedOperation),
    }
}

/// Flattening of the left spine of a same-kind set-operation nest: the
/// portable inputs of everything at or below `q` on the left side.
pub open spec fn produce_set_inputs(kind: SetKind, q: PlanV, exts: Seq<ExtKeyV>) -> Result<
    (Seq<PRelV>, Seq<ExtKeyV>),
    TranslateError,
>
    decreases q, 1int,
{
    match q {
        PlanV::SetOp { kind: k2, left, right } => if k2 == kind {
            match produce_set_inputs(kind, *left, exts) {
                Ok((ins, s1)) => match produce_rel(*right, s1) {
                    Ok((pr, s2)) => Ok((ins.push(pr), s2)),
                    Err(e) => Err(e),
                },
                Err(e) => Err(e),
            }
        } else {
            match produce_rel(q, exts) {
                Ok((pr, s1)) => Ok((seq![pr], s1)),
                Err(e) => Err(e),
            }
        },
        _ => match produce_rel(q, exts) {
            Ok((pr, s1)) => Ok((seq![pr], s1)),
            Err(e) => Err(e),
        },
    }
}

/// Production of a sort-key list, left to right, threading the declaration
/// list.
pub open spec fn produce_sortkeys(
    s: Seq<crate::plan::SortKeyV>,
    schema: Seq<EFieldV>,
    exts: Seq<ExtKeyV>,
) -> Result<(Seq<crate::plan::PSortKeyV>, Seq<ExtKeyV>), TranslateError>
    decreases s,
{
    if s.len() == 0 {
        Ok((Seq::empty(), exts))
    } else {
        match produce_sortkeys(s.drop_last(), schema, exts) {
            Ok((rest, mid)) => match produce_expr(s.last().expr, schema, mid) {
                Ok((pe, out)) => Ok(
                    (
                        rest.push(
                            crate::plan::PSortKeyV {
                                expr: pe,
                                asc: s.last().asc,
                                nulls_first: s.last().nulls_first,
                            },
                        ),
                        out,
                    ),
                ),
                Err(e) => Err(e),
            },
            Err(e) => Err(e),
        }
    }
}

/// Production of a whole plan: the portable envelope holds the declaration
/// list the traversal accumulated (in first-encounter anchor order), the
/// root relation, and the plan's output column names.
pub open spec fn produce_plan(p: PlanV) -> Result<PPlanV, TranslateError> {
    match produce_rel(p, Seq::empty()) {
        Ok((pr, exts)) => Ok(
            PPlanV { extensions: exts, root: pr, root_names: schema_names(schema_of(p)) },
        ),
        Err(e) => Err(e),
    }
}

/// Producing only ever appends declarations.
pub proof fn lemma_produce_rel_extends(p: PlanV, exts: Seq<ExtKeyV>)
    ensures
        produce_rel(p, exts) matches Ok(r) ==> exts.is_prefix_of(r.1),
    decreases p, 0int,
{
    crate::expr_xlate::lemma_prefix_trans(exts, exts, exts);
    match p {
        PlanV::Read { .. } => {
            assert(exts.is_prefix_of(exts));
        },
        PlanV::Project { input, exprs, .. } => {
            if produce_rel(p, exts) is Ok {
                lemma_produce_rel_extends(*input, exts);
                let s1 = produce_rel(*input, exts)->Ok_0.1;
                crate::expr_xlate::lemma_produce_exprs_extends(exprs, schema_of(*input), s1);
                let s2 = produce_exprs(exprs, schema_of(*input), s1)->Ok_0.1;
                crate::expr_xlate::lemma_prefix_trans(exts, s1, s2);
            }
        },
        PlanV::Filter { input, predicate } => {
            if produce_rel(p, exts) is Ok {
                lemma_produce_rel_extends(*input, exts);
                let s1 = produce_rel(*input, exts)->Ok_0.1;
                crate::expr_xlate::lemma_produce_expr_extends(predicate, schema_of(*input), s1);
                let s2 = produce_expr(predicate, schema_of(*input), s1)->Ok_0.1;
                crate::expr_xlate::lemma_prefix_trans(exts, s1, s2);
            }
        },
        PlanV::Join { left, right, on, .. } => {
            if produce_rel(p, exts) is Ok {
                lemma_produce_rel_extends(*left, exts);
                let s1 = produce_rel(*left, exts)->Ok_0.1;
                lemma_produce_rel_extends(*right, s1);
                let s2 = produce_rel(*right, s1)->Ok_0.1;
                crate::expr_xlate::lemma_produce_expr_extends(
                    on,
                    schema_of(*left) + schema_of(*right),
                    s2,
                );
                let s3 = produce_expr(on, schema_of(*left) + schema_of(*right), s2)->Ok_0.1;
                crate::expr_xlate::lemma_prefix_trans(exts, s1, s2);
                crate::expr_xlate::lemma_prefix_trans(exts, s2, s3);
            }
        },
        PlanV::SetOp { kind, left, right } => {
            if produce_rel(p, exts) is Ok {
                lemma_produce_set_inputs_extends(kind, *left, exts);
                let s1 = produce_set_inputs(kind, *left, exts)->Ok_0.1;
                lemma_produce_rel_extends(*right, s1);
                let s2 = produce_rel(*right, s1)->Ok_0.1;
                crate::expr_xlate::lemma_prefix_trans(exts, s1, s2);
            }
        },
        PlanV::Fetch { input, .. } => {
            if produce_rel(p, exts) is Ok {
                lemma_produce_rel_extends(*input, exts);
            }
        },
        PlanV::Sort { input, keys } => {
            if produce_rel(p, exts) is Ok {
                lemma_produce_rel_extends(*input, exts);
                let s1 = produce_rel(*input, exts)->Ok_0.1;
                lemma_produce_sortkeys_extends(keys, schema_of(*input), s1);
                let s2 = produce_sortkeys(keys, schema_of(*input), s1)->Ok_0.1;
                crate::expr_xlate::lemma_prefix_trans(exts, s1, s2);
            }
        },
        PlanV::Alias { input, .. } => {
            lemma_produce_rel_extends(*input, exts);
        },
        PlanV::CreateTable { input, .. } => {
            if produce_rel(p, exts) is Ok {
                lemma_produce_rel_extends(*input, exts);
            }
        },
        PlanV::DropTable { .. } => {},
    }
}

/// Producing sort keys only ever appends declarations.
pub proof fn lemma_produce_sortkeys_extends(
    s: Seq<crate::plan::SortKeyV>,
    schema: Seq<EFieldV>,
    exts: Seq<ExtKeyV>,
)
    ensures
        produce_sortkeys(s, schema, exts) matches Ok(r) ==> exts.is_prefix_of(r.1),
    decreases s,
{
    if produce_sortkeys(s, schema, exts) is Ok {
        if s.len() == 0 {
            assert(exts.is_prefix_of(exts));
        } else {
            lemma_produce_sortkeys_extends(s.drop_last(), schema, exts);
            let mid = produce_sortkeys(s.drop_last(), schema, exts)->Ok_0.1;
            crate::expr_xlate::lemma_produce_expr_extends(s.last().expr, schema, mid);
            let out = produce_expr(s.last().expr, schema, mid)->Ok_0.1;
            crate::expr_xlate::lemma_prefix_trans(exts, mid, out);
        }
    }
}

/// Flattened set inputs only ever append declarations.
pub proof fn lemma_produce_set_inputs_extends(kind: SetKind, q: PlanV, exts: Seq<ExtKeyV>)
    ensures
        produce_set_inputs(kind, q, exts) matches Ok(r) ==> exts.is_prefix_of(r.1),
    decreases q, 1int,
{
    if produce_set_inputs(kind, q, exts) is Ok {
        match q {
            PlanV::SetOp { kind: k2, left, right } => {
                if k2 == kind {
                    lemma_produce_set_inputs_extends(kind, *left, exts);
                    let s1 = produce_set_inputs(kind, *left, exts)->Ok_0.1;
                    lemma_produce_rel_extends(*right, s1);
                    let s2 = produce_rel(*right, s1)->Ok_0.1;
                    crate::expr_xlate::lemma_prefix_trans(exts, s1, s2);
                } else {
                    lemma_produce_rel_extends(q, exts);
                }
            },
            _ => {
                lemma_produce_rel_extends(q, exts);
            },
        }
    }
}

/// Producing a plan is a function of the plan alone: the same plan yields
/// the same portable envelope, with identical anchor assignments and the
/// extension-declaration list in the same order, on every run.  Together
/// with the executable producer's contract — its result equals
/// [`produce_plan`] of its argument — this pins down anchor determinism for
/// two runs over one plan.
pub proof fn lemma_anchor_determinism(p1: PlanV, p2: PlanV)
    requires
        p1 == p2,
    ensures
        produce_plan(p1) == produce_plan(p2),
        produce_plan(p1) matches Ok(e1) ==> produce_plan(p2) matches Ok(e2) && e1.extensions
            == e2.extensions && e1.root == e2.root,
{
}

// ---------------------------------------------------------------------------
// Executable producer.
// ---------------------------------------------------------------------------
/// The engine type a literal carries, as a value.
pub fn literal_type(l: &EngineLiteral) -> (r: EngineType)
    ensures
        r@ == crate::literal::lit_type(l@),
{
    match l {
        EngineLiteral::Bool(_) => EngineType::Bool,
        EngineLiteral::Int8(_) => EngineType::Int8,
        EngineLiteral::Int16(_) => EngineType::Int16,
        EngineLiteral::Int32(_) => EngineType::Int32,
        EngineLiteral::Int64(_) => EngineType::Int64,
        EngineLiteral::UInt8(_) => EngineType::UInt8,
        EngineLiteral::UInt16(_) => EngineType::UInt16,
        EngineLiteral::UInt32(_) => EngineType::UInt32,
        EngineLiteral::UInt64(_) => EngineType::UInt64,
        EngineLiteral::Float32 { .. } => EngineType::Float32,
        EngineLiteral::Float64 { .. } => EngineType::Float64,
        EngineLiteral::Decimal { precision, scale, .. } => EngineType::Decimal {
            precision: *precision,
            scale: *scale,
        },
        EngineLiteral::Date(_) => EngineType::Date,
        EngineLiteral::Timestamp { unit, zone, .. } => EngineType::Timestamp {
            unit: *unit,
            zone: match zone {
                Some(z) => Some(z.clone()),
                None => None,
            },
        },
        EngineLiteral::Utf8(_) => EngineType::Utf8,
        EngineLiteral::LargeUtf8(_) => EngineType::LargeUtf8,
        EngineLiteral::Utf8View(_) => EngineType::Utf8View,
        EngineLiteral::Binary(_) => EngineType::Binary,
        EngineLiteral::LargeBinary(_) => EngineType::LargeBinary,
        EngineLiteral::BinaryView(_) => EngineType::BinaryView,
        EngineLiteral::FixedBinary { width, .. } => EngineType::FixedBinary { width: *width },
        EngineLiteral::Duration { unit, .. } => EngineType::Duration { unit: *unit },
    }
}

/// Whether a literal is a typed NULL, as a run-time test.
pub fn literal_is_null(l: &EngineLiteral) -> (r: bool)
    ensures
        r == crate::literal::is_null_lit(l@),
{
    match l {
        EngineLiteral::Bool(v) => v.is_none(),
        EngineLiteral::Int8(v) => v.is_none(),
        EngineLiteral::Int16(v) => v.is_none(),
        EngineLiteral::Int32(v) => v.is_none(),
        EngineLiteral::Int64(v) => v.is_none(),
        EngineLiteral::UInt8(v) => v.is_none(),
        EngineLiteral::UInt16(v) => v.is_none(),
        EngineLiteral::UInt32(v) => v.is_none(),
        EngineLiteral::UInt64(v) => v.is_none(),
        EngineLiteral::Float32 { bits } => bits.is_none(),
        EngineLiteral::Float64 { bits } => bits.is_none(),
        EngineLiteral::Decimal { value, .. } => value.is_none(),
        EngineLiteral::Date(v) => v.is_none(),
        EngineLiteral::Timestamp { value, .. } => value.is_none(),
        EngineLiteral::Utf8(v) => v.is_none(),
        EngineLiteral::LargeUtf8(v) => v.is_none(),
        EngineLiteral::Utf8View(v) => v.is_none(),
        EngineLiteral::Binary(v) => v.is_none(),
        EngineLiteral::LargeBinary(v) => v.is_none(),
        EngineLiteral::BinaryView(v) => v.is_none(),
        EngineLiteral::FixedBinary { value, .. } => value.is_none(),
        EngineLiteral::Duration { value, .. } => value.is_none(),
    }
}

/// The output type and nullability of a typeable expression over its input
/// schema.
pub fn expr_type(e: &Expr, schema: &Vec<EField>) -> (r: (EngineType, bool))
    requires
        expr_typeable(e@, efields_view(schema@)),
    ensures
        r.0@ == type_of(e@, efields_view(schema@)),
        r.1 == nullable_of(e@, efields_view(schema@)),
{
    match e {
        Expr::Column { name } => {
            match crate::expr_xlate::find_col(schema, name) {
                Some(i) => {
                    proof {
                        crate::types::lemma_efields_view_index(schema@);
                    }
                    let f = &schema[i];
                    (crate::types::clone_etype(&f.ty), f.nullable)
                },
                None => {
                    proof {
                        assert(false);
                    }
                    (EngineType::Bool, false)
                },
            }
        },
        Expr::Literal(l) => (literal_type(l), literal_is_null(l)),
        Expr::ScalarFn { ret, ret_nullable, .. } => (crate::types::clone_etype(ret), *ret_nullable),
        Expr::WindowFn { ret, ret_nullable, .. } => (crate::types::clone_etype(ret), *ret_nullable),
        Expr::Cast { ty, nullable, .. } => (crate::types::clone_etype(ty), *nullable),
        Expr::Case { ret, ret_nullable, .. } => (crate::types::clone_etype(ret), *ret_nullable),
    }
}

/// Whether every expression of a projection can be typed against the input
/// schema (only column references can fail).
fn check_typeable(exprs: &Vec<Expr>, schema: &Vec<EField>) -> (r: bool)
    ensures
        r == exprs_typeable(crate::expr::exprs_view(exprs@), efields_view(schema@)),
{
    let ghost ev = crate::expr::exprs_view(exprs@);
    let ghost sv = efields_view(schema@);
    proof {
        crate::expr::lemma_exprs_view_index(exprs@);
    }
    let mut i: usize = 0;
    while i < exprs.len()
        invariant
            i <= exprs.len(),
            ev == crate::expr::exprs_view(exprs@),
            sv == efields_view(schema@),
            ev.len() == exprs@.len(),
            forall|j: int| 0 <= j < exprs@.len() ==> ev[j] == crate::expr::expr_view(exprs@[j]),
            forall|j: int| 0 <= j < i ==> expr_typeable(#[trigger] ev[j], sv),
        decreases exprs.len() - i,
    {
        let ok = match &exprs[i] {
            Expr::Column { name } => crate::expr_xlate::find_col(schema, name).is_some(),
            _ => true,
        };
        if !ok {
            proof {
                assert(!expr_typeable(ev[i as int], sv));
            }
            return false;
        }
        i = i + 1;
    }
    true
}

/// Translates a logical plan node into its portable relation, also handing
/// back the node's output schema, which the caller needs to translate the
/// expressions sitting above it.
#[verifier::loop_isolation(false)]
#[verifier::rlimit(100)]
pub fn to_portable_rel(p: &Plan, reg: &mut Registry) -> (r: Result<
    (PRel, Vec<EField>),
    TranslateError,
>)
    ensures
        old(reg)@.is_prefix_of(final(reg)@),
        (match r {
            Ok(pr) => produce_rel(p@, old(reg)@) == Ok::<_, TranslateError>(
                (pr.0@, final(reg)@),
            ) && efields_view(pr.1@) == schema_of(p@),
            Err(e) => produce_rel(p@, old(reg)@) == Err::<(PRelV, Seq<ExtKeyV>), _>(e),
        }),
    decreases *p, 0int,
{
    proof {
        assert(old(reg)@.subrange(0, old(reg)@.len() as int) =~= old(reg)@);
    }
    match p {
        Plan::Read { table, schema } => {
            match crate::codec::encode_schema(schema) {
                Ok(ps) => {
                    let names = table.to_names();
                    let out_schema = crate::types::clone_efields(schema);
                    proof {
                        assert(crate::plan::names_view(names@) =~= table@);
                    }
                    Ok(
                        (
                            PRel::Read { names, schema: ps, common: PCommon { emit: PEmit::Direct } },
                            out_schema,
                        ),
                    )
                },
                Err(e) => Err(e),
            }
        },
        Plan::Project { input, exprs, names } => {
            let ghost insch = schema_of(crate::plan::plan_view(**input));
            match to_portable_rel(input, reg) {
                Ok((pi, in_vec)) => {
                    proof {
                        crate::expr::lemma_exprs_view_index(exprs@);
                        crate::types::lemma_efields_view_index(in_vec@);
                        assert(efields_view(in_vec@) == insch);
                        assert(in_vec@.len() == insch.len());
                    }
                    if names.len() != exprs.len() {
                        return Err(TranslateError::MalformedPlan);
                    }
                    if !check_typeable(exprs, &in_vec) {
                        return Err(TranslateError::MalformedPlan);
                    }
                    let ghost s1 = reg@;
                    match crate::expr_xlate::translate_args(exprs, &in_vec, reg) {
                        Ok(pes) => {
                            let n = in_vec.len();
                            let k = exprs.len();
                            if n as u64 > u64::MAX - (k as u64) {
                                proof {
                                    crate::expr_xlate::lemma_prefix_trans(old(reg)@, s1, reg@);
                                }
                                return Err(TranslateError::MalformedPlan);
                            }
                            let mut remap: Vec<u64> = Vec::new();
                            let mut i: usize = 0;
                            while i < k
                                invariant
                                    i <= k,
                                    remap@.len() == i,
                                    forall|j: int| 0 <= j < i ==> remap@[j] == (n + j) as u64,
                                decreases k - i,
                            {
                                remap.push((n as u64) + (i as u64));
                                i = i + 1;
                            }
                            proof {
                                crate::types::lemma_efields_view_index(in_vec@);
                                assert(in_vec@.len() == insch.len());
                                assert(remap@ =~= Seq::new(
                                    exprs@.len() as nat,
                                    |j: int| (insch.len() + j) as u64,
                                ));
                            }
                            let mut out_schema: Vec<EField> = Vec::new();
                            let mut w: usize = 0;
                            while w < exprs.len()
                                invariant
                                    w <= exprs.len(),
                                    out_schema@.len() == w,
                                    forall|j: int|
                                        0 <= j < w ==> crate::types::efield_view(out_schema@[j])
                                            == (EFieldV {
                                            name: crate::plan::names_view(names@)[j],
                                            ty: type_of(
                                                crate::expr::exprs_view(exprs@)[j],
                                                insch,
                                            ),
                                            nullable: nullable_of(
                                                crate::expr::exprs_view(exprs@)[j],
                                                insch,
                                            ),
                                        }),
                                decreases exprs.len() - w,
                            {
                                proof {
                                    crate::expr::lemma_exprs_view_index(exprs@);
                                    assert(exprs_typeable(
                                        crate::expr::exprs_view(exprs@),
                                        efields_view(in_vec@),
                                    ));
                                    assert(expr_typeable(
                                        crate::expr::exprs_view(exprs@)[w as int],
                                        efields_view(in_vec@),
                                    ));
                                }
                                let (t, nul) = expr_type(&exprs[w], &in_vec);
                                out_schema.push(
                                    EField { name: names[w].clone(), ty: t, nullable: nul },
                                );
                                w = w + 1;
                            }
                            proof {
                                crate::types::lemma_efields_view_index(out_schema@);
                                crate::expr_xlate::lemma_prefix_trans(old(reg)@, s1, reg@);
                                assert(efields_view(out_schema@) =~= schema_of(p@));
                            }
                            Ok(
                                (
                                    PRel::Project {
                                        input: Box::new(pi),
                                        exprs: pes,
                                        common: PCommon { emit: PEmit::Remap(remap) },
                                    },
                                    out_schema,
                                ),
                            )
                        },
                        Err(e) => {
                            proof {
                                crate::expr_xlate::lemma_prefix_trans(old(reg)@, s1, reg@);
                            }
                            Err(e)
                        },
                    }
                },
                Err(e) => Err(e),
            }
        },
        Plan::Filter { input, predicate } => {
            match to_portable_rel(input, reg) {
                Ok((pi, in_vec)) => {
                    let ghost s1 = reg@;
                    match crate::expr_xlate::to_portable_expr(predicate, &in_vec, reg) {
                        Ok(pc) => {
                            proof {
                                crate::expr_xlate::lemma_prefix_trans(old(reg)@, s1, reg@);
                            }
                            Ok(
                                (
                                    PRel::Filter {
                                        input: Box::new(pi),
                                        condition: pc,
                                        common: PCommon { emit: PEmit::Direct },
                                    },
                                    in_vec,
                                ),
                            )
                        },
                        Err(e) => {
                            proof {
                                crate::expr_xlate::lemma_prefix_trans(old(reg)@, s1, reg@);
                            }
                            Err(e)
                        },
                    }
                },
                Err(e) => Err(e),
            }
        },
        Plan::Join { left, right, jt, on } => {
            match to_portable_rel(left, reg) {
                Ok((pl, mut lsch)) => {
                    let ghost s1 = reg@;
                    match to_portable_rel(right, reg) {
                        Ok((prr, mut rsch)) => {
                            let ghost s2 = reg@;
                            let ghost lseq = lsch@;
                            let ghost rseq = rsch@;
                            lsch.append(&mut rsch);
                            let combined = lsch;
                            proof {
                                assert(combined@ == lseq + rseq);
                                crate::types::lemma_efields_view_concat(lseq, rseq);
                            }
                            match crate::expr_xlate::to_portable_expr(on, &combined, reg) {
                                Ok(pon) => {
                                    proof {
                                        crate::expr_xlate::lemma_prefix_trans(old(reg)@, s1, s2);
                                        crate::expr_xlate::lemma_prefix_trans(old(reg)@, s2, reg@);
                                    }
                                    Ok(
                                        (
                                            PRel::Join {
                                                left: Box::new(pl),
                                                right: Box::new(prr),
                                                jt: *jt,
                                                on: pon,
                                                common: PCommon { emit: PEmit::Direct },
                                            },
                                            combined,
                                        ),
                                    )
                                },
                                Err(e) => {
                                    proof {
                                        crate::expr_xlate::lemma_prefix_trans(old(reg)@, s1, s2);
                                        crate::expr_xlate::lemma_prefix_trans(old(reg)@, s2, reg@);
                                    }
                                    Err(e)
                                },
                            }
                        },
                        Err(e) => {
                            proof {
                                crate::expr_xlate::lemma_prefix_trans(old(reg)@, s1, reg@);
                            }
                            Err(e)
                        },
                    }
                },
                Err(e) => Err(e),
            }
        },
        Plan::SetOp { kind, left, right } => {
            let mut inputs: Vec<PRel> = Vec::new();
            match spine_inputs(*kind, left, reg, &mut inputs) {
                Ok(sch) => {
                    let ghost s1 = reg@;
                    match to_portable_rel(right, reg) {
                        Ok((prr, _rsch)) => {
                            let ghost ins_seq = inputs@;
                            let ghost ins_pre = crate::plan::prels_view(inputs@);
                            inputs.push(prr);
                            proof {
                                assert(inputs@.drop_last() =~= ins_seq);
                                assert(crate::plan::prels_view(inputs@)
                                    == crate::plan::prels_view(inputs@.drop_last()).push(
                                    crate::plan::prel_view(inputs@.last()),
                                ));
                                crate::expr_xlate::lemma_prefix_trans(old(reg)@, s1, reg@);
                                assert(crate::plan::prels_view(inputs@) =~= ins_pre.push(
                                    crate::plan::prel_view(inputs@.last()),
                                ));
                            }
                            Ok(
                                (
                                    PRel::SetRel {
                                        kind: *kind,
                                        inputs,
                                        common: PCommon { emit: PEmit::Direct },
                                    },
                                    sch,
                                ),
                            )
                        },
                        Err(e) => {
                            proof {
                                crate::expr_xlate::lemma_prefix_trans(old(reg)@, s1, reg@);
                            }
                            Err(e)
                        },
                    }
                },
                Err(e) => Err(e),
            }
        },
        Plan::Fetch { input, offset, count } => {
            match to_portable_rel(input, reg) {
                Ok((pi, in_vec)) => Ok(
                    (
                        PRel::Fetch {
                            input: Box::new(pi),
                            offset: *offset,
                            count: *count,
                            common: PCommon { emit: PEmit::Direct },
                        },
                        in_vec,
                    ),
                ),
                Err(e) => Err(e),
            }
        },
        Plan::Sort { input, keys } => {
            match to_portable_rel(input, reg) {
                Ok((pi, in_vec)) => {
                    let ghost s1 = reg@;
                    match translate_sortkeys(keys, &in_vec, reg) {
                        Ok(pks) => {
                            proof {
                                crate::expr_xlate::lemma_prefix_trans(old(reg)@, s1, reg@);
                            }
                            Ok(
                                (
                                    PRel::Sort {
                                        input: Box::new(pi),
                                        keys: pks,
                                        common: PCommon { emit: PEmit::Direct },
                                    },
                                    in_vec,
                                ),
                            )
                        },
                        Err(e) => {
                            proof {
                                crate::expr_xlate::lemma_prefix_trans(old(reg)@, s1, reg@);
                            }
                            Err(e)
                        },
                    }
                },
                Err(e) => Err(e),
            }
        },
        Plan::Alias { input, alias } => {
            match to_portable_rel(input, reg) {
                Ok((pi, in_vec)) => {
                    let qualified = qualify_fields(alias, &in_vec);
                    Ok((pi, qualified))
                },
                Err(e) => Err(e),
            }
        },
        Plan::CreateTable { name, input, .. } => {
            match to_portable_rel(input, reg) {
                Ok((pi, in_vec)) => {
                    match crate::codec::encode_schema(&in_vec) {
                        Ok(ts) => {
                            let names = name.to_names();
                            proof {
                                assert(crate::plan::names_view(names@) =~= name@);
                                assert(efields_view(Seq::<EField>::empty()) =~= Seq::<
                                    EFieldV,
                                >::empty());
                            }
                            Ok(
                                (
                                    PRel::Write {
                                        table_schema: ts,
                                        op: WriteOp::Create,
                                        input: Some(Box::new(pi)),
                                        create_mode: CreateMode::IgnoreIfExists,
                                        output_mode: OutputMode::NoOutput,
                                        target: Some(WriteTarget::NamedTable { names }),
                                        common: PCommon { emit: PEmit::Direct },
                                    },
                                    Vec::new(),
                                ),
                            )
                        },
                        Err(e) => Err(e),
                    }
                },
                Err(e) => Err(e),
            }
        },
        Plan::DropTable { .. } => Err(TranslateError::UnsupportedOperation),
    }
}

/// One unfolding step of [`produce_sortkeys`] over a growing prefix.
proof fn lemma_produce_sortkeys_unfold_prefix(
    s: Seq<crate::plan::SortKeyV>,
    schema: Seq<EFieldV>,
    exts: Seq<ExtKeyV>,
    i: int,
)
    requires
        0 <= i < s.len(),
    ensures
        produce_sortkeys(s.subrange(0, i + 1), schema, exts) == (match produce_sortkeys(
            s.subrange(0, i),
            schema,
            exts,
        ) {
            Ok((rest, mid)) => match produce_expr(s[i].expr, schema, mid) {
                Ok((pe, out)) => Ok::<_, TranslateError>(
                    (
                        rest.push(
                            crate::plan::PSortKeyV {
                                expr: pe,
                                asc: s[i].asc,
                                nulls_first: s[i].nulls_first,
                            },
                        ),
                        out,
                    ),
                ),
                Err(e) => Err(e),
            },
            Err(e) => Err(e),
        }),
{
    let pre = s.subrange(0, i + 1);
    assert(pre.drop_last() =~= s.subrange(0, i));
    assert(pre.last() == s[i]);
}

/// Once a prefix of sort keys fails to produce, the whole list fails the
/// same way.
proof fn lemma_produce_sortkeys_err_extends(
    s: Seq<crate::plan::SortKeyV>,
    schema: Seq<EFieldV>,
    exts: Seq<ExtKeyV>,
    i: int,
)
    requires
        0 <= i <= s.len(),
        produce_sortkeys(s.subrange(0, i), schema, exts) is Err,
    ensures
        produce_sortkeys(s, schema, exts) == produce_sortkeys(s.subrange(0, i), schema, exts),
    decreases s.len(),
{
    if i == s.len() {
        assert(s.subrange(0, i) =~= s);
    } else {
        assert(s.drop_last().subrange(0, i) =~= s.subrange(0, i));
        lemma_produce_sortkeys_err_extends(s.drop_last(), schema, exts, i);
    }
}

/// Translates a sort-key list left to right, threading the registry.
#[verifier::loop_isolation(false)]
fn translate_sortkeys(
    keys: &Vec<crate::plan::SortKey>,
    schema: &Vec<EField>,
    reg: &mut Registry,
) -> (r: Result<Vec<crate::plan::PSortKey>, TranslateError>)
    ensures
        old(reg)@.is_prefix_of(final(reg)@),
        (match r {
            Ok(ps) => produce_sortkeys(
                crate::plan::sortkeys_view(keys@),
                efields_view(schema@),
                old(reg)@,
            ) == Ok::<_, TranslateError>((crate::plan::psortkeys_view(ps@), final(reg)@)),
            Err(e) => produce_sortkeys(
                crate::plan::sortkeys_view(keys@),
                efields_view(schema@),
                old(reg)@,
            ) == Err::<(Seq<crate::plan::PSortKeyV>, Seq<ExtKeyV>), _>(e),
        }),
    decreases keys,
{
    let ghost kv = crate::plan::sortkeys_view(keys@);
    let ghost sv = efields_view(schema@);
    let ghost pre = reg@;
    proof {
        crate::plan::lemma_sortkeys_view_index(keys@);
        assert(kv.subrange(0, 0) =~= Seq::<crate::plan::SortKeyV>::empty());
        assert(pre.subrange(0, pre.len() as int) =~= pre);
    }
    let mut out: Vec<crate::plan::PSortKey> = Vec::new();
    let mut i: usize = 0;
    while i < keys.len()
        invariant
            i <= keys.len(),
            kv == crate::plan::sortkeys_view(keys@),
            sv == efields_view(schema@),
            kv.len() == keys@.len(),
            forall|j: int| 0 <= j < keys@.len() ==> kv[j] == crate::plan::sortkey_view(keys@[j]),
            pre.is_prefix_of(reg@),
            produce_sortkeys(kv.subrange(0, i as int), sv, pre) == Ok::<_, TranslateError>(
                (crate::plan::psortkeys_view(out@), reg@),
            ),
        decreases keys.len() - i,
    {
        let ghost out_pre = out@;
        let ghost reg_mid = reg@;
        let k = &keys[i];
        match crate::expr_xlate::to_portable_expr(&k.expr, schema, reg) {
            Ok(pe) => {
                out.push(
                    crate::plan::PSortKey { expr: pe, asc: k.asc, nulls_first: k.nulls_first },
                );
                proof {
                    lemma_produce_sortkeys_unfold_prefix(kv, sv, pre, i as int);
                    assert(out@.drop_last() =~= out_pre);
                    assert(crate::plan::psortkeys_view(out@) =~= crate::plan::psortkeys_view(
                        out_pre,
                    ).push(crate::plan::psortkey_view(out@.last())));
                    crate::expr_xlate::lemma_prefix_trans(pre, reg_mid, reg@);
                }
            },
            Err(e) => {
                proof {
                    lemma_produce_sortkeys_unfold_prefix(kv, sv, pre, i as int);
                    lemma_produce_sortkeys_err_extends(kv, sv, pre, i as int + 1);
                    crate::expr_xlate::lemma_prefix_trans(pre, reg_mid, reg@);
                }
                return Err(e);
            },
        }
        i = i + 1;
    }
    proof {
        assert(kv.subrange(0, keys@.len() as int) =~= kv);
    }
    Ok(out)
}

/// Qualifies every column name of a schema with an alias, as a subquery
/// alias does.
pub(crate) fn qualify_fields(alias: &String, fields: &Vec<EField>) -> (r: Vec<EField>)
    ensures
        efields_view(r@) == crate::plan::qualify_schema(alias@, efields_view(fields@)),
{
    let ghost sv = efields_view(fields@);
    proof {
        crate::types::lemma_efields_view_index(fields@);
    }
    let mut out: Vec<EField> = Vec::new();
    let mut i: usize = 0;
    while i < fields.len()
        invariant
            i <= fields.len(),
            sv == efields_view(fields@),
            sv.len() == fields@.len(),
            forall|j: int| 0 <= j < fields@.len() ==> sv[j] == crate::types::efield_view(
                fields@[j],
            ),
            out@.len() == i,
            forall|j: int| 0 <= j < i ==> crate::types::efield_view(out@[j]) == (EFieldV {
                name: crate::plan::qualify(alias@, sv[j].name),
                ty: sv[j].ty,
                nullable: sv[j].nullable,
            }),
        decreases fields.len() - i,
    {
        let f = &fields[i];
        let mut q = alias.clone();
        q.append(".");
        q.append(f.name.as_str());
        proof {
            reveal_strlit(".");
            assert(q@ =~= crate::plan::qualify(alias@, f.name@));
        }
        out.push(EField { name: q, ty: crate::types::clone_etype(&f.ty), nullable: f.nullable });
        i = i + 1;
    }
    proof {
        crate::types::lemma_efields_view_index(out@);
        assert(efields_view(out@) =~= crate::plan::qualify_schema(alias@, sv));
    }
    out
}

/// Flattens the left spine of a same-kind set-operation nest into `out`,
/// answering the spine head's output schema.
#[verifier::loop_isolation(false)]
fn spine_inputs(kind: SetKind, q: &Plan, reg: &mut Registry, out: &mut Vec<PRel>) -> (r: Result<
    Vec<EField>,
    TranslateError,
>)
    ensures
        old(reg)@.is_prefix_of(final(reg)@),
        (match r {
            Ok(sch) => produce_set_inputs(kind, q@, old(reg)@) matches Ok(pi)
                && crate::plan::prels_view(final(out)@) == crate::plan::prels_view(old(out)@)
                + pi.0 && pi.1 == final(reg)@ && efields_view(sch@) == schema_of(q@),
            Err(e) => produce_set_inputs(kind, q@, old(reg)@) == Err::<
                (Seq<PRelV>, Seq<ExtKeyV>),
                _,
            >(e),
        }),
    decreases *q, 1int,
{
    proof {
        assert(old(reg)@.subrange(0, old(reg)@.len() as int) =~= old(reg)@);
    }
    let same_kind: bool = match q {
        Plan::SetOp { kind: k2, .. } => *k2 == kind,
        _ => false,
    };
    if same_kind {
        match q {
            Plan::SetOp { kind: _, left, right } => {
                match spine_inputs(kind, left, reg, out) {
                    Ok(sch) => {
                        let ghost s1 = reg@;
                        let ghost out_mid = crate::plan::prels_view(out@);
                        let ghost mid_seq = out@;
                        match to_portable_rel(right, reg) {
                            Ok((prr, _rsch)) => {
                                out.push(prr);
                                proof {
                                    assert(out@.drop_last() =~= mid_seq);
                                    assert(crate::plan::prels_view(out@)
                                        == crate::plan::prels_view(out@.drop_last()).push(
                                        crate::plan::prel_view(out@.last()),
                                    ));
                                    crate::expr_xlate::lemma_prefix_trans(old(reg)@, s1, reg@);
                                    assert(crate::plan::prels_view(out@) =~= crate::plan::prels_view(
                                        old(out)@,
                                    ) + produce_set_inputs(kind, q@, old(reg)@)->Ok_0.0);
                                }
                                Ok(sch)
                            },
                            Err(e) => {
                                proof {
                                    crate::expr_xlate::lemma_prefix_trans(old(reg)@, s1, reg@);
                                }
                                Err(e)
                            },
                        }
                    },
                    Err(e) => Err(e),
                }
            },
            _ => {
                proof {
                    assert(false);
                }
                Err(TranslateError::MalformedPlan)
            },
        }
    } else {
        match to_portable_rel(q, reg) {
            Ok((pr, sch)) => {
                let ghost out_seq = out@;
                let ghost out_pre = crate::plan::prels_view(out@);
                out.push(pr);
                proof {
                    assert(out@.drop_last() =~= out_seq);
                    assert(crate::plan::prels_view(out@) == crate::plan::prels_view(
                        out@.drop_last(),
                    ).push(crate::plan::prel_view(out@.last())));
                    assert(crate::plan::prels_view(out@) =~= out_pre + seq![
                        crate::plan::prel_view(out@.last()),
                    ]);
                }
                Ok(sch)
            },
            Err(e) => Err(e),
        }
    }
}

/// Converts a CREATE-TABLE-AS-SELECT node to the corresponding portable
/// `Write` relation.  Any other statement is `UnsupportedOperation`.
pub fn from_ddl(reg: &mut Registry, ddl: &Plan) -> (r: Result<PRel, TranslateError>)
    ensures
        old(reg)@.is_prefix_of(final(reg)@),
        ddl@ matches PlanV::CreateTable { .. } ==> (match r {
            Ok(pr) => produce_rel(ddl@, old(reg)@) == Ok::<_, TranslateError>(
                (pr@, final(reg)@),
            ),
            Err(e) => produce_rel(ddl@, old(reg)@) == Err::<(PRelV, Seq<ExtKeyV>), _>(e),
        }),
        !(ddl@ matches PlanV::CreateTable { .. }) ==> r == Err::<PRel, _>(
            TranslateError::UnsupportedOperation,
        ),
{
    proof {
        assert(old(reg)@.subrange(0, old(reg)@.len() as int) =~= old(reg)@);
    }
    let is_ctas: bool = match ddl {
        Plan::CreateTable { .. } => true,
        _ => false,
    };
    if is_ctas {
        match to_portable_rel(ddl, reg) {
            Ok((pr, _sch)) => Ok(pr),
            Err(e) => Err(e),
        }
    } else {
        Err(TranslateError::UnsupportedOperation)
    }
}

/// Produces the portable envelope for a whole plan: a fresh session is
/// created for the call and discarded with it, so anchors depend on the
/// plan alone.
pub fn to_portable_plan(p: &Plan) -> (r: Result<PPlan, TranslateError>)
    ensures
        (match r {
            Ok(pp) => produce_plan(p@) == Ok::<_, TranslateError>(pp@),
            Err(e) => produce_plan(p@) == Err::<PPlanV, _>(e),
        }),
{
    let mut reg = Registry::new();
    match to_portable_rel(p, &mut reg) {
        Ok((root, sch)) => {
            let extensions = reg.declarations();
            let mut root_names: Vec<String> = Vec::new();
            let mut i: usize = 0;
            proof {
                crate::types::lemma_efields_view_index(sch@);
            }
            while i < sch.len()
                invariant
                    i <= sch.len(),
                    root_names@.len() == i,
                    forall|j: int| 0 <= j < i ==> root_names@[j]@ == crate::types::efield_view(
                        #[trigger] sch@[j],
                    ).name,
                decreases sch.len() - i,
            {
                root_names.push(sch[i].name.clone());
                i = i + 1;
            }
            let pp = PPlan { extensions, root, root_names };
            proof {
                crate::types::lemma_efields_view_index(sch@);
                assert(crate::plan::names_view(pp.root_names@) =~= schema_names(schema_of(p@)));
                assert(pp@ =~= produce_plan(p@)->Ok_0);
            }
            Ok(pp)
        },
        Err(e) => Err(e),
    }
}

} // verus!
