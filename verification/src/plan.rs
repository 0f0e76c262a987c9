use vstd::prelude::*;
use crate::types::{EField, EFieldV, ETypeV, efields_view};
use crate::ptypes::{PField, PFieldV, pfields_view};
use crate::expr::{Expr, ExprV, PExpr, PExprV, expr_view, exprs_view, pexpr_view, pexprs_view};
use crate::expr_xlate::{has_col, name_index};
use crate::literal::{lit_type, is_null_lit};
use crate::registry::{ExtensionDecl, ExtKeyV, decls_view};
use crate::table_ref::TableRef;

verus! {

/// The join kinds the translator carries.
#[derive(Clone, Copy, Debug, PartialEq, Eq, Structural)]
pub enum JoinType {
    Inner,
    Left,
    Right,
    Full,
}

/// The set-operation kinds, distinct and non-distinct.
#[derive(Clone, Copy, Debug, PartialEq, Eq, Structural)]
pub enum SetKind {
    UnionAll,
    UnionDistinct,
    IntersectDistinct,
    IntersectAll,
    ExceptDistinct,
    ExceptAll,
}

/// The write operation of a portable `Write` relation.  Only `Create`
/// (CREATE TABLE AS SELECT) is consumable.
#[derive(Clone, Copy, Debug, PartialEq, Eq, Structural)]
pub enum WriteOp {
    Unspecified,
    Insert,
    Delete,
    Update,
    Create,
    Drop,
}

/// How a portable `Write` behaves on an existing table.
#[derive(Clone, Copy, Debug, PartialEq, Eq, Structural)]
pub enum CreateMode {
    Unspecified,
    AppendIfExists,
    ReplaceIfExists,
    IgnoreIfExists,
    ErrorIfExists,
}

/// What a portable `Write` returns to its caller.
#[derive(Clone, Copy, Debug, PartialEq, Eq, Structural)]
pub enum OutputMode {
    Unspecified,
    NoOutput,
    ModifiedRecords,
}

/// One sort key: the expression ordered by, its direction, and where NULLs
/// go.
#[derive(Debug, PartialEq)]
pub struct SortKey {
    pub expr: Expr,
    pub asc: bool,
    pub nulls_first: bool,
}

/// One sort key of the portable encoding.
#[derive(Debug, PartialEq)]
pub struct PSortKey {
    pub expr: PExpr,
    pub asc: bool,
    pub nulls_first: bool,
}

/// A node of the engine's logical plan.
#[derive(Debug, PartialEq)]
pub enum Plan {
    /// A table scan with its declared schema.
    Read { table: TableRef, schema: Vec<EField> },
    /// A projection: one output column per expression, with its name.
    Project { input: Box<Plan>, exprs: Vec<Expr>, names: Vec<String> },
    /// A filter by a boolean predicate over the input schema.
    Filter { input: Box<Plan>, predicate: Expr },
    /// A join; the condition ranges over the concatenated schemas.
    Join { left: Box<Plan>, right: Box<Plan>, jt: JoinType, on: Expr },
    /// A binary set operation.  Nested same-kind operations are flattened
    /// into one multi-input portable node by the producer.
    SetOp { kind: SetKind, left: Box<Plan>, right: Box<Plan> },
    /// Offset and optional row-count limit.
    Fetch { input: Box<Plan>, offset: u64, count: Option<u64> },
    /// An ordering by one or more sort keys.
    Sort { input: Box<Plan>, keys: Vec<SortKey> },
    /// A subquery alias: every column name is qualified `alias.name`.
    /// The portable encoding has no alias concept at the relation level, so
    /// the producer drops it; the consumer reintroduces aliases only to
    /// repair name collisions.
    Alias { input: Box<Plan>, alias: String },
    /// CREATE TABLE AS SELECT.
    CreateTable {
        name: TableRef,
        input: Box<Plan>,
        if_not_exists: bool,
        or_replace: bool,
        temporary: bool,
    },
    /// A DDL statement the translator does not support.
    DropTable { name: TableRef },
}

/// How a portable relation's output columns map onto the concatenation of
/// its children's columns: identity passthrough, or an explicit positional
/// remap.
#[derive(Debug, PartialEq)]
pub enum PEmit {
    Direct,
    Remap(Vec<u64>),
}

/// The common block every portable relation carries.
#[derive(Debug, PartialEq)]
pub struct PCommon {
    pub emit: PEmit,
}

/// The write target of a portable `Write` relation.
#[derive(Debug, PartialEq)]
pub enum WriteTarget {
    /// A table named by 1-3 components.
    NamedTable { names: Vec<String> },
    /// An extension target the consumer cannot interpret; it degrades to
    /// the bare fallback table name.
    Extension,
}

/// A node of the portable relation tree.
#[derive(Debug, PartialEq)]
pub enum PRel {
    Read { names: Vec<String>, schema: Vec<PField>, common: PCommon },
    Project { input: Box<PRel>, exprs: Vec<PExpr>, common: PCommon },
    Filter { input: Box<PRel>, condition: PExpr, common: PCommon },
    Join { left: Box<PRel>, right: Box<PRel>, jt: JoinType, on: PExpr, common: PCommon },
    SetRel { kind: SetKind, inputs: Vec<PRel>, common: PCommon },
    Fetch { input: Box<PRel>, offset: u64, count: Option<u64>, common: PCommon },
    Sort { input: Box<PRel>, keys: Vec<PSortKey>, common: PCommon },
    Write {
        table_schema: Vec<PField>,
        op: WriteOp,
        input: Option<Box<PRel>>,
        create_mode: CreateMode,
        output_mode: OutputMode,
        target: Option<WriteTarget>,
        common: PCommon,
    },
}

/// The portable plan envelope: extension declarations (anchor order), one
/// root relation, and the root's output column names.
#[derive(Debug, PartialEq)]
pub struct PPlan {
    pub extensions: Vec<ExtensionDecl>,
    pub root: PRel,
    pub root_names: Vec<String>,
}

// ---------------------------------------------------------------------------
// Models.
// ---------------------------------------------------------------------------
/// Mathematical model of a [`SortKey`].
#[verifier::ext_equal]
pub struct SortKeyV {
    pub expr: ExprV,
    pub asc: bool,
    pub nulls_first: bool,
}

/// Mathematical model of a [`PSortKey`].
#[verifier::ext_equal]
pub struct PSortKeyV {
    pub expr: PExprV,
    pub asc: bool,
    pub nulls_first: bool,
}

/// Mathematical model of a [`Plan`].
#[verifier::ext_equal]
pub enum PlanV {
    Read { table: Seq<Seq<char>>, schema: Seq<EFieldV> },
    Project { input: Box<PlanV>, exprs: Seq<ExprV>, names: Seq<Seq<char>> },
    Filter { input: Box<PlanV>, predicate: ExprV },
    Join { left: Box<PlanV>, right: Box<PlanV>, jt: JoinType, on: ExprV },
    SetOp { kind: SetKind, left: Box<PlanV>, right: Box<PlanV> },
    Fetch { input: Box<PlanV>, offset: u64, count: Option<u64> },
    Sort { input: Box<PlanV>, keys: Seq<SortKeyV> },
    Alias { input: Box<PlanV>, alias: Seq<char> },
    CreateTable {
        name: Seq<Seq<char>>,
        input: Box<PlanV>,
        if_not_exists: bool,
        or_replace: bool,
        temporary: bool,
    },
    DropTable { name: Seq<Seq<char>> },
}

/// Mathematical model of a [`PEmit`].
#[verifier::ext_equal]
pub enum PEmitV {
    Direct,
    Remap(Seq<u64>),
}

/// Mathematical model of a [`WriteTarget`].
#[verifier::ext_equal]
pub enum WriteTargetV {
    NamedTable { names: Seq<Seq<char>> },
    Extension,
}

/// Mathematical model of a [`PRel`].
#[verifier::ext_equal]
pub enum PRelV {
    Read { names: Seq<Seq<char>>, schema: Seq<PFieldV>, emit: PEmitV },
    Project { input: Box<PRelV>, exprs: Seq<PExprV>, emit: PEmitV },
    Filter { input: Box<PRelV>, condition: PExprV, emit: PEmitV },
    Join { left: Box<PRelV>, right: Box<PRelV>, jt: JoinType, on: PExprV, emit: PEmitV },
    SetRel { kind: SetKind, inputs: Seq<PRelV>, emit: PEmitV },
    Fetch { input: Box<PRelV>, offset: u64, count: Option<u64>, emit: PEmitV },
    Sort { input: Box<PRelV>, keys: Seq<PSortKeyV>, emit: PEmitV },
    Write {
        table_schema: Seq<PFieldV>,
        op: WriteOp,
        input: Option<Box<PRelV>>,
        create_mode: CreateMode,
        output_mode: OutputMode,
        target: Option<WriteTargetV>,
        emit: PEmitV,
    },
}

/// Mathematical model of a [`PPlan`].
#[verifier::ext_equal]
pub struct PPlanV {
    pub extensions: Seq<ExtKeyV>,
    pub root: PRelV,
    pub root_names: Seq<Seq<char>>,
}

/// The model of a name list.
pub open spec fn names_view(s: Seq<String>) -> Seq<Seq<char>> {
    s.map_values(|n: String| n@)
}

/// The model of a logical plan.
pub open spec fn plan_view(p: Plan) -> PlanV
    decreases p,
{
    match p {
        Plan::Read { table, schema } => PlanV::Read { table: table@, schema: efields_view(schema@) },
        Plan::Project { input, exprs, names } => PlanV::Project {
            input: Box::new(plan_view(*input)),
            exprs: exprs_view(exprs@),
            names: names_view(names@),
        },
        Plan::Filter { input, predicate } => PlanV::Filter {
            input: Box::new(plan_view(*input)),
            predicate: expr_view(predicate),
        },
        Plan::Join { left, right, jt, on } => PlanV::Join {
            left: Box::new(plan_view(*left)),
            right: Box::new(plan_view(*right)),
            jt,
            on: expr_view(on),
        },
        Plan::SetOp { kind, left, right } => PlanV::SetOp {
            kind,
            left: Box::new(plan_view(*left)),
            right: Box::new(plan_view(*right)),
        },
        Plan::Fetch { input, offset, count } => PlanV::Fetch {
            input: Box::new(plan_view(*input)),
            offset,
            count,
        },
        Plan::Sort { input, keys } => PlanV::Sort {
            input: Box::new(plan_view(*input)),
            keys: sortkeys_view(keys@),
        },
        Plan::Alias { input, alias } => PlanV::Alias {
            input: Box::new(plan_view(*input)),
            alias: alias@,
        },
        Plan::CreateTable { name, input, if_not_exists, or_replace, temporary } => {
            PlanV::CreateTable {
                name: name@,
                input: Box::new(plan_view(*input)),
                if_not_exists,
                or_replace,
                temporary,
            }
        },
        Plan::DropTable { name } => PlanV::DropTable { name: name@ },
    }
}

/// The model of an emit block.
pub open spec fn pemit_view(e: PEmit) -> PEmitV {
    match e {
        PEmit::Direct => PEmitV::Direct,
        PEmit::Remap(v) => PEmitV::Remap(v@),
    }
}

/// The model of a write target.
pub open spec fn write_target_view(t: WriteTarget) -> WriteTargetV {
    match t {
        WriteTarget::NamedTable { names } => WriteTargetV::NamedTable { names: names_view(names@) },
        WriteTarget::Extension => WriteTargetV::Extension,
    }
}

/// The model of a sequence of portable relations, elementwise.
pub open spec fn prels_view(s: Seq<PRel>) -> Seq<PRelV>
    decreases s, 1int,
{
    if s.len() == 0 {
        Seq::empty()
    } else {
        prels_view(s.drop_last()).push(prel_view(s.last()))
    }
}

/// The model of a portable relation.
pub open spec fn prel_view(p: PRel) -> PRelV
    decreases p, 0int,
{
    match p {
        PRel::Read { names, schema, common } => PRelV::Read {
            names: names_view(names@),
            schema: pfields_view(schema@),
            emit: pemit_view(common.emit),
        },
        PRel::Project { input, exprs, common } => PRelV::Project {
            input: Box::new(prel_view(*input)),
            exprs: pexprs_view(exprs@),
            emit: pemit_view(common.emit),
        },
        PRel::Filter { input, condition, common } => PRelV::Filter {
            input: Box::new(prel_view(*input)),
            condition: crate::expr::pexpr_view(condition),
            emit: pemit_view(common.emit),
        },
        PRel::Join { left, right, jt, on, common } => PRelV::Join {
            left: Box::new(prel_view(*left)),
            right: Box::new(prel_view(*right)),
            jt,
            on: crate::expr::pexpr_view(on),
            emit: pemit_view(common.emit),
        },
        PRel::SetRel { kind, inputs, common } => PRelV::SetRel {
            kind,
            inputs: prels_view(inputs@),
            emit: pemit_view(common.emit),
        },
        PRel::Fetch { input, offset, count, common } => PRelV::Fetch {
            input: Box::new(prel_view(*input)),
            offset,
            count,
            emit: pemit_view(common.emit),
        },
        PRel::Sort { input, keys, common } => PRelV::Sort {
            input: Box::new(prel_view(*input)),
            keys: psortkeys_view(keys@),
            emit: pemit_view(common.emit),
        },
        PRel::Write { table_schema, op, input, create_mode, output_mode, target, common } => {
            PRelV::Write {
                table_schema: pfields_view(table_schema@),
                op,
                input: match input {
                    Some(b) => Some(Box::new(prel_view(*b))),
                    None => None,
                },
                create_mode,
                output_mode,
                target: match target {
                    Some(t) => Some(write_target_view(t)),
                    None => None,
                },
                emit: pemit_view(common.emit),
            }
        },
    }
}

impl View for Plan {
    type V = PlanV;

    open spec fn view(&self) -> PlanV {
        plan_view(*self)
    }
}

impl View for PRel {
    type V = PRelV;

    open spec fn view(&self) -> PRelV {
        prel_view(*self)
    }
}

impl View for PPlan {
    type V = PPlanV;

    open spec fn view(&self) -> PPlanV {
        PPlanV {
            extensions: decls_view(self.extensions@),
            root: prel_view(self.root),
            root_names: names_view(self.root_names@),
        }
    }
}

/// The model of a sort-key list, elementwise.
pub open spec fn sortkeys_view(s: Seq<SortKey>) -> Seq<SortKeyV>
    decreases s, 1int,
{
    if s.len() == 0 {
        Seq::empty()
    } else {
        sortkeys_view(s.drop_last()).push(sortkey_view(s.last()))
    }
}

/// The model of one sort key.
pub open spec fn sortkey_view(k: SortKey) -> SortKeyV
    decreases k, 0int,
{
    SortKeyV { expr: expr_view(k.expr), asc: k.asc, nulls_first: k.nulls_first }
}

/// The model of a portable sort-key list, elementwise.
pub open spec fn psortkeys_view(s: Seq<PSortKey>) -> Seq<PSortKeyV>
    decreases s, 1int,
{
    if s.len() == 0 {
        Seq::empty()
    } else {
        psortkeys_view(s.drop_last()).push(psortkey_view(s.last()))
    }
}

/// The model of one portable sort key.
pub open spec fn psortkey_view(k: PSortKey) -> PSortKeyV
    decreases k, 0int,
{
    PSortKeyV { expr: pexpr_view(k.expr), asc: k.asc, nulls_first: k.nulls_first }
}

/// Sort-key-list views are elementwise.
pub proof fn lemma_sortkeys_view_index(s: Seq<SortKey>)
    ensures
        sortkeys_view(s).len() == s.len(),
        forall|i: int| 0 <= i < s.len() ==> sortkeys_view(s)[i] == sortkey_view(s[i]),
    decreases s,
{
    if s.len() > 0 {
        lemma_sortkeys_view_index(s.drop_last());
    }
}

/// Portable sort-key-list views are elementwise.
pub proof fn lemma_psortkeys_view_index(s: Seq<PSortKey>)
    ensures
        psortkeys_view(s).len() == s.len(),
        forall|i: int| 0 <= i < s.len() ==> psortkeys_view(s)[i] == psortkey_view(s[i]),
    decreases s,
{
    if s.len() > 0 {
        lemma_psortkeys_view_index(s.drop_last());
    }
}

/// The model of a sequence of logical plans, elementwise.
pub open spec fn plans_view(s: Seq<Plan>) -> Seq<PlanV>
    decreases s,
{
    if s.len() == 0 {
        Seq::empty()
    } else {
        plans_view(s.drop_last()).push(plan_view(s.last()))
    }
}

/// Plan-sequence views are elementwise.
pub proof fn lemma_plans_view_index(s: Seq<Plan>)
    ensures
        plans_view(s).len() == s.len(),
        forall|i: int| 0 <= i < s.len() ==> plans_view(s)[i] == plan_view(s[i]),
    decreases s,
{
    if s.len() > 0 {
        lemma_plans_view_index(s.drop_last());
    }
}

/// Portable relation-sequence views are elementwise.
pub proof fn lemma_prels_view_index(s: Seq<PRel>)
    ensures
        prels_view(s).len() == s.len(),
        forall|i: int| 0 <= i < s.len() ==> prels_view(s)[i] == prel_view(s[i]),
    decreases s,
{
    if s.len() > 0 {
        lemma_prels_view_index(s.drop_last());
    }
}

// ---------------------------------------------------------------------------
// Schemas, typing, canonical names.
// ---------------------------------------------------------------------------
/// The engine type of an expression over an input schema.  Total; a column
/// absent from the schema gets an unconstrained placeholder, which the
/// translation's error paths rule out before it matters.
pub open spec fn type_of(e: ExprV, schema: Seq<EFieldV>) -> ETypeV {
    match e {
        ExprV::Column { name } => schema[name_index(schema, name)].ty,
        ExprV::Literal(l) => lit_type(l),
        ExprV::ScalarFn { ret, .. } => ret,
        ExprV::WindowFn { ret, .. } => ret,
        ExprV::Cast { ty, .. } => ty,
        ExprV::Case { ret, .. } => ret,
    }
}

/// The nullability of an expression over an input schema.
pub open spec fn nullable_of(e: ExprV, schema: Seq<EFieldV>) -> bool {
    match e {
        ExprV::Column { name } => schema[name_index(schema, name)].nullable,
        ExprV::Literal(l) => is_null_lit(l),
        ExprV::ScalarFn { ret_nullable, .. } => ret_nullable,
        ExprV::WindowFn { ret_nullable, .. } => ret_nullable,
        ExprV::Cast { nullable, .. } => nullable,
        ExprV::Case { ret_nullable, .. } => ret_nullable,
    }
}

/// The canonical output name of an expression: the referenced column's name
/// for a column, the function's name for a call, the input's name for a
/// cast, a fixed word for a literal.
pub open spec fn canon_name(e: ExprV) -> Seq<char>
    decreases e,
{
    match e {
        ExprV::Column { name } => name,
        ExprV::Literal(_) => "literal"@,
        ExprV::ScalarFn { name, .. } => name,
        ExprV::WindowFn { name, .. } => name,
        ExprV::Cast { input, .. } => canon_name(*input),
        ExprV::Case { .. } => "case"@,
    }
}

/// A column name qualified by a subquery alias: `alias.name`.
pub open spec fn qualify(alias: Seq<char>, name: Seq<char>) -> Seq<char> {
    alias + seq!['.'] + name
}

/// A schema with every column name qualified by an alias.
pub open spec fn qualify_schema(alias: Seq<char>, schema: Seq<EFieldV>) -> Seq<EFieldV> {
    schema.map_values(
        |f: EFieldV| EFieldV { name: qualify(alias, f.name), ty: f.ty, nullable: f.nullable },
    )
}

/// The output schema of a logical plan node.
///
/// A DDL node exposes no columns.  A projection's fields pair the node's
/// names with its expressions' types over the input schema.
pub open spec fn schema_of(p: PlanV) -> Seq<EFieldV>
    decreases p,
{
    match p {
        PlanV::Read { schema, .. } => schema,
        PlanV::Project { input, exprs, names } => Seq::new(
            exprs.len(),
            |i: int|
                EFieldV {
                    name: names[i],
                    ty: type_of(exprs[i], schema_of(*input)),
                    nullable: nullable_of(exprs[i], schema_of(*input)),
                },
        ),
        PlanV::Filter { input, .. } => schema_of(*input),
        PlanV::Join { left, right, .. } => schema_of(*left) + schema_of(*right),
        PlanV::SetOp { left, .. } => schema_of(*left),
        PlanV::Fetch { input, .. } => schema_of(*input),
        PlanV::Sort { input, .. } => schema_of(*input),
        PlanV::Alias { input, alias } => qualify_schema(alias, schema_of(*input)),
        PlanV::CreateTable { .. } => Seq::empty(),
        PlanV::DropTable { .. } => Seq::empty(),
    }
}

/// The column names of a schema, in order.
pub open spec fn schema_names(s: Seq<EFieldV>) -> Seq<Seq<char>> {
    s.map_values(|f: EFieldV| f.name)
}

/// Whether two schemas share at least one column name — what the consumer's
/// collision repair looks for before building a join.
pub open spec fn schemas_collide(a: Seq<EFieldV>, b: Seq<EFieldV>) -> bool {
    exists|i: int, j: int|
        0 <= i < a.len() && 0 <= j < b.len() && a[i].name == b[j].name
}

} // verus!
