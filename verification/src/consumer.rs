use vstd::prelude::*;
use crate::error::TranslateError;
use crate::codec::dec_schema;
use crate::expr_xlate::{consume_expr, consume_exprs};
use crate::plan::{
    PlanV, PRelV, PEmitV, PPlanV, WriteTargetV, WriteOp, SetKind, schema_of, schema_names,
    schemas_collide, canon_name, Plan, PRel, PEmit, WriteTarget, PPlan,
};
use crate::registry::{ExtKeyV, ExtensionDecl, decls_view};
use crate::table_ref::{table_ref_of_names, fallback_table_name};
use crate::types::{EField, EFieldV, efields_view};
use crate::expr::{Expr, ExprV, PExprV};

verus! {

// ---------------------------------------------------------------------------
// Specification of the consumer.
// ---------------------------------------------------------------------------
/// The synthetic alias put around the left side when a join's sides collide.
pub open spec fn left_alias() -> Seq<char> {
    "left"@
}

/// The synthetic alias put around the right side.
pub open spec fn right_alias() -> Seq<char> {
    "right"@
}

/// One passthrough column expression per schema field, in order.
pub open spec fn col_exprs(sc: Seq<EFieldV>) -> Seq<ExprV> {
    Seq::new(sc.len(), |i: int| ExprV::Column { name: sc[i].name })
}

/// The canonical names of an expression list.
pub open spec fn canon_names(es: Seq<ExprV>) -> Seq<Seq<char>> {
    es.map_values(|e: ExprV| canon_name(e))
}

/// Applies a relation's emit block to its reconstructed output: `Direct`
/// passes the node through; `Remap` wraps it in a projection selecting the
/// given positions of its schema.  An index outside the schema is
/// `MalformedPlan`.
pub open spec fn apply_emit(p: PlanV, emit: PEmitV) -> Result<PlanV, TranslateError> {
    match emit {
        PEmitV::Direct => Ok(p),
        PEmitV::Remap(idxs) => {
            let sc = schema_of(p);
            if forall|i: int| 0 <= i < idxs.len() ==> (#[trigger] idxs[i]) < sc.len() {
                Ok(
                    PlanV::Project {
                        input: Box::new(p),
                        exprs: Seq::new(
                            idxs.len(),
                            |i: int| ExprV::Column { name: sc[idxs[i] as int].name },
                        ),
                        names: Seq::new(idxs.len(), |i: int| sc[idxs[i] as int].name),
                    },
                )
            } else {
                Err(TranslateError::MalformedPlan)
            }
        },
    }
}

/// Left-associated expansion of a multi-input set node: `N` inputs become
/// `N - 1` nested binary operations of the same kind.
pub open spec fn fold_set(kind: SetKind, plans: Seq<PlanV>) -> PlanV
    recommends
        plans.len() >= 1,
    decreases plans.len(),
{
    if plans.len() <= 1 {
        plans[0]
    } else {
        PlanV::SetOp {
            kind,
            left: Box::new(fold_set(kind, plans.drop_last())),
            right: Box::new(plans.last()),
        }
    }
}

/// Consumption of a portable relation back into a logical plan node,
/// children first, resolving anchors through `decls`.
///
/// Policies, mirroring the producer's:
/// - a multi-input set node expands into left-associated binaries;
/// - immediately before a join is built, the two sides' schemas are checked
///   for column-name collisions; colliding sides are wrapped in synthetic
///   `left`/`right` aliasing subqueries so the combined schema has unique
///   names — repair, not an error;
/// - a `Write` relation is consumable only as CREATE (CTAS); its target
///   reference is read back by the 1/2/3-component convention, any other
///   target degrading to the bare fallback name;
/// - a projection rebuilds the full output (input columns, then computed
///   expressions) and applies the emit remap to it.
pub open spec fn consume_rel(p: PRelV, decls: Seq<ExtKeyV>) -> Result<PlanV, TranslateError>
    decreases p, 0int,
{
    match p {
        PRelV::Read { names, schema, emit } => match dec_schema(schema) {
            Ok(es) => apply_emit(
                PlanV::Read { table: table_ref_of_names(names), schema: es },
                emit,
            ),
            Err(e) => Err(e),
        },
        PRelV::Project { input, exprs, emit } => match consume_rel(*input, decls) {
            Ok(c) => {
                let sc = schema_of(c);
                match consume_exprs(exprs, sc, decls) {
                    Ok(es) => {
                        let full = col_exprs(sc) + es;
                        let fnames = schema_names(sc) + canon_names(es);
                        match emit {
                            PEmitV::Direct => Ok(
                                PlanV::Project { input: Box::new(c), exprs: full, names: fnames },
                            ),
                            PEmitV::Remap(idxs) => if forall|i: int|
                                0 <= i < idxs.len() ==> (#[trigger] idxs[i]) < full.len() {
                                Ok(
                                    PlanV::Project {
                                        input: Box::new(c),
                                        exprs: Seq::new(
                                            idxs.len(),
                                            |i: int| full[idxs[i] as int],
                                        ),
                                        names: Seq::new(
                                            idxs.len(),
                                            |i: int| fnames[idxs[i] as int],
                                        ),
                                    },
                                )
                            } else {
                                Err(TranslateError::MalformedPlan)
                            },
                        }
                    },
                    Err(e) => Err(e),
                }
            },
            Err(e) => Err(e),
        },
        PRelV::Filter { input, condition, emit } => match consume_rel(*input, decls) {
            Ok(c) => match consume_expr(condition, schema_of(c), decls) {
                Ok(pred) => apply_emit(
                    PlanV::Filter { input: Box::new(c), predicate: pred },
                    emit,
                ),
                Err(e) => Err(e),
            },
            Err(e) => Err(e),
        },
        PRelV::Join { left, right, jt, on, emit } => match consume_rel(*left, decls) {
            Ok(l) => match consume_rel(*right, decls) {
                Ok(r) => {
                    let collide = schemas_collide(schema_of(l), schema_of(r));
                    let l2 = if collide {
                        PlanV::Alias { input: Box::new(l), alias: left_alias() }
                    } else {
                        l
                    };
                    let r2 = if collide {
                        PlanV::Alias { input: Box::new(r), alias: right_alias() }
                    } else {
                        r
                    };
                    match consume_expr(on, schema_of(l2) + schema_of(r2), decls) {
                        Ok(cond) => apply_emit(
                            PlanV::Join {
                                left: Box::new(l2),
                                right: Box::new(r2),
                                jt,
                                on: cond,
                            },
                            emit,
                        ),
                        Err(e) => Err(e),
                    }
                },
                Err(e) => Err(e),
            },
            Err(e) => Err(e),
        },
        PRelV::SetRel { kind, inputs, emit } => if inputs.len() < 2 {
            Err(TranslateError::MalformedPlan)
        } else {
            match consume_rels(inputs, decls) {
                Ok(plans) => apply_emit(fold_set(kind, plans), emit),
                Err(e) => Err(e),
            }
        },
        PRelV::Fetch { input, offset, count, emit } => match consume_rel(*input, decls) {
            Ok(c) => apply_emit(PlanV::Fetch { input: Box::new(c), offset, count }, emit),
            Err(e) => Err(e),
        },
        PRelV::Sort { input, keys, emit } => match consume_rel(*input, decls) {
            Ok(c) => match consume_sortkeys(keys, schema_of(c), decls) {
                Ok(ks) => apply_emit(PlanV::Sort { input: Box::new(c), keys: ks }, emit),
                Err(e) => Err(e),
            },
            Err(e) => Err(e),
        },
        PRelV::Write { op, input, target, .. } => if op != WriteOp::Create {
            Err(TranslateError::UnsupportedOperation)
        } else {
            match input {
                Some(inner) => match consume_rel(*inner, decls) {
                    Ok(c) => Ok(
                        PlanV::CreateTable {
                            name: (match target {
                                Some(WriteTargetV::NamedTable { names }) => table_ref_of_names(
                                    names,
                                ),
                                _ => seq![fallback_table_name()],
                            }),
                            input: Box::new(c),
                            if_not_exists: true,
                            or_replace: false,
                            temporary: false,
                        },
                    ),
                    Err(e) => Err(e),
                },
                None => Err(TranslateError::MalformedPlan),
            }
        },
    }
}

/// Consumption of a portable sort-key list, left to right.
pub open spec fn consume_sortkeys(
    s: Seq<crate::plan::PSortKeyV>,
    schema: Seq<EFieldV>,
    decls: Seq<ExtKeyV>,
) -> Result<Seq<crate::plan::SortKeyV>, TranslateError>
    decreases s, 2int,
{
    if s.len() == 0 {
        Ok(Seq::empty())
    } else {
        match consume_sortkeys(s.drop_last(), schema, decls) {
            Ok(rest) => match consume_expr(s.last().expr, schema, decls) {
                Ok(e) => Ok(
                    rest.push(
                        crate::plan::SortKeyV {
                            expr: e,
                            asc: s.last().asc,
                            nulls_first: s.last().nulls_first,
                        },
                    ),
                ),
                Err(e) => Err(e),
            },
            Err(e) => Err(e),
        }
    }
}

/// Consumption of a portable relation list, left to right.
pub open spec fn consume_rels(s: Seq<PRelV>, decls: Seq<ExtKeyV>) -> Result<
    Seq<PlanV>,
    TranslateError,
>
    decreases s, 1int,
{
    if s.len() == 0 {
        Ok(Seq::empty())
    } else {
        match consume_rels(s.drop_last(), decls) {
            Ok(rest) => match consume_rel(s.last(), decls) {
                Ok(c) => Ok(rest.push(c)),
                Err(e) => Err(e),
            },
            Err(e) => Err(e),
        }
    }
}

/// Consumption of a whole portable envelope.  When the rebuilt plan's
/// column names differ from the root's declared names, a renaming
/// projection is wrapped around it; a name-count mismatch is
/// `MalformedPlan`.
pub open spec fn consume_plan(pp: PPlanV) -> Result<PlanV, TranslateError> {
    match consume_rel(pp.root, pp.extensions) {
        Ok(p) => {
            let ns = schema_names(schema_of(p));
            if ns == pp.root_names {
                Ok(p)
            } else if ns.len() == pp.root_names.len() {
                Ok(
                    PlanV::Project {
                        input: Box::new(p),
                        exprs: col_exprs(schema_of(p)),
                        names: pp.root_names,
                    },
                )
            } else {
                Err(TranslateError::MalformedPlan)
            }
        },
        Err(e) => Err(e),
    }
}

// ---------------------------------------------------------------------------
// Collision repair is correct.
// ---------------------------------------------------------------------------
/// Qualifying with one alias is injective on column names.
proof fn lemma_qualify_injective(alias: Seq<char>, x: Seq<char>, y: Seq<char>)
    requires
        crate::plan::qualify(alias, x) == crate::plan::qualify(alias, y),
    ensures
        x == y,
{
    let qx = crate::plan::qualify(alias, x);
    let qy = crate::plan::qualify(alias, y);
    assert(qx.len() == alias.len() + 1 + x.len());
    assert(qy.len() == alias.len() + 1 + y.len());
    assert(x.len() == y.len());
    assert forall|i: int| 0 <= i < x.len() implies x[i] == y[i] by {
        assert(qx[alias.len() + 1 + i] == x[i]);
        assert(qy[alias.len() + 1 + i] == y[i]);
    }
    assert(x =~= y);
}

/// Names qualified by the left alias and names qualified by the right alias
/// never coincide: the two aliases differ in their first character.
proof fn lemma_alias_sides_differ(x: Seq<char>, y: Seq<char>)
    ensures
        crate::plan::qualify(left_alias(), x) != crate::plan::qualify(right_alias(), y),
{
    reveal_strlit("left");
    reveal_strlit("right");
    let qx = crate::plan::qualify(left_alias(), x);
    let qy = crate::plan::qualify(right_alias(), y);
    assert(qx[0] == 'l');
    assert(qy[0] == 'r');
    if qx == qy {
        assert(qx[0] == qy[0]);
        assert(false);
    }
}

/// After the synthetic `left`/`right` aliases are wrapped around two sides
/// whose own schemas have distinct names, the combined schema has pairwise
/// distinct names.
pub proof fn lemma_repaired_schemas_distinct(a: Seq<EFieldV>, b: Seq<EFieldV>)
    requires
        crate::types::distinct_names(a),
        crate::types::distinct_names(b),
    ensures
        crate::types::distinct_names(
            crate::plan::qualify_schema(left_alias(), a) + crate::plan::qualify_schema(
                right_alias(),
                b,
            ),
        ),
{
    let qa = crate::plan::qualify_schema(left_alias(), a);
    let qb = crate::plan::qualify_schema(right_alias(), b);
    let all = qa + qb;
    assert forall|i: int, j: int| 0 <= i < j < all.len() implies all[i].name != all[j].name by {
        if j < qa.len() {
            if all[i].name == all[j].name {
                lemma_qualify_injective(left_alias(), a[i].name, a[j].name);
            }
        } else if i >= qa.len() {
            if all[i].name == all[j].name {
                lemma_qualify_injective(
                    right_alias(),
                    b[i - qa.len()].name,
                    b[j - qa.len()].name,
                );
            }
        } else {
            lemma_alias_sides_differ(a[i].name, b[j - qa.len()].name);
        }
    }
}

/// Collision repair correctness: the plan the consumer rebuilds for a join
/// has zero duplicate column names across the join's combined schema,
/// whenever each consumed side's own schema had distinct names.  For a
/// self-join of a table on itself the sides collide, and the synthetic
/// aliases make every combined name unique.
pub proof fn lemma_collision_repair(p: PRelV, decls: Seq<ExtKeyV>)
    requires
        p matches PRelV::Join { .. },
        p->Join_emit == PEmitV::Direct,
        consume_rel(*p->Join_left, decls) is Ok,
        crate::types::distinct_names(schema_of(consume_rel(*p->Join_left, decls)->Ok_0)),
        consume_rel(*p->Join_right, decls) is Ok,
        crate::types::distinct_names(schema_of(consume_rel(*p->Join_right, decls)->Ok_0)),
        consume_rel(p, decls) is Ok,
    ensures
        crate::types::distinct_names(schema_of(consume_rel(p, decls)->Ok_0)),
{
    let left = p->Join_left;
    let right = p->Join_right;
    let l = consume_rel(*left, decls)->Ok_0;
    let r = consume_rel(*right, decls)->Ok_0;
    let c = consume_rel(p, decls)->Ok_0;
    if schemas_collide(schema_of(l), schema_of(r)) {
        lemma_repaired_schemas_distinct(schema_of(l), schema_of(r));
        assert(schema_of(c) == crate::plan::qualify_schema(left_alias(), schema_of(l))
            + crate::plan::qualify_schema(right_alias(), schema_of(r)));
    } else {
        assert(schema_of(c) == schema_of(l) + schema_of(r));
        let sl = schema_of(l);
        let sr = schema_of(r);
        assert forall|i: int, j: int|
            0 <= i < j < schema_of(c).len() implies schema_of(c)[i].name != schema_of(
            c,
        )[j].name by {
            if i < sl.len() && j >= sl.len() {
                assert(!(exists|x: int, y: int|
                    0 <= x < sl.len() && 0 <= y < sr.len() && sl[x].name == sr[y].name));
            }
        }
    }
}

// ---------------------------------------------------------------------------
// Facts the executable consumer leans on.
// ---------------------------------------------------------------------------
/// Whatever consumption hands back can be typed against the same schema:
/// only its column references need the schema, and they came out of it.
pub proof fn lemma_consumed_typeable(p: PExprV, schema: Seq<EFieldV>, decls: Seq<ExtKeyV>)
    ensures
        consume_expr(p, schema, decls) matches Ok(e) ==> crate::producer::expr_typeable(e, schema),
{
    if consume_expr(p, schema, decls) is Ok {
        match p {
            PExprV::Field(i) => {
                let e = consume_expr(p, schema, decls)->Ok_0;
                assert(schema[i].name == e->Column_name);
                assert(crate::expr_xlate::has_col(schema, e->Column_name));
            },
            _ => {},
        }
    }
}

/// The schema of a left-associated expansion is its first input's schema.
pub proof fn lemma_fold_set_schema(kind: SetKind, plans: Seq<PlanV>)
    requires
        plans.len() >= 1,
    ensures
        schema_of(fold_set(kind, plans)) == schema_of(plans[0]),
    decreases plans.len(),
{
    if plans.len() > 1 {
        lemma_fold_set_schema(kind, plans.drop_last());
        assert(plans.drop_last()[0] == plans[0]);
    }
}

/// One unfolding step of [`consume_rels`] over a growing prefix.
proof fn lemma_consume_rels_unfold_prefix(s: Seq<PRelV>, decls: Seq<ExtKeyV>, i: int)
    requires
        0 <= i < s.len(),
    ensures
        consume_rels(s.subrange(0, i + 1), decls) == (match consume_rels(
            s.subrange(0, i),
            decls,
        ) {
            Ok(rest) => match consume_rel(s[i], decls) {
                Ok(c) => Ok::<_, TranslateError>(rest.push(c)),
                Err(e) => Err(e),
            },
            Err(e) => Err(e),
        }),
{
    let pre = s.subrange(0, i + 1);
    assert(pre.drop_last() =~= s.subrange(0, i));
    assert(pre.last() == s[i]);
}

/// Once a prefix fails to consume, the whole list fails the same way.
proof fn lemma_consume_rels_err_extends(s: Seq<PRelV>, decls: Seq<ExtKeyV>, i: int)
    requires
        0 <= i <= s.len(),
        consume_rels(s.subrange(0, i), decls) is Err,
    ensures
        consume_rels(s, decls) == consume_rels(s.subrange(0, i), decls),
    decreases s.len(),
{
    if i == s.len() {
        assert(s.subrange(0, i) =~= s);
    } else {
        assert(s.drop_last().subrange(0, i) =~= s.subrange(0, i));
        lemma_consume_rels_err_extends(s.drop_last(), decls, i);
    }
}

// ---------------------------------------------------------------------------
// Executable consumer.
// ---------------------------------------------------------------------------
/// The canonical output name of an expression, as a value.
pub fn derive_name(e: &Expr) -> (r: String)
    ensures
        r@ == canon_name(e@),
    decreases *e,
{
    match e {
        Expr::Column { name } => name.clone(),
        Expr::Literal(_) => String::from_str("literal"),
        Expr::ScalarFn { name, .. } => name.clone(),
        Expr::WindowFn { name, .. } => name.clone(),
        Expr::Cast { input, .. } => derive_name(input),
        Expr::Case { .. } => String::from_str("case"),
    }
}

/// One passthrough column expression per schema field.
fn columns_of(sch: &Vec<EField>) -> (r: Vec<Expr>)
    ensures
        crate::expr::exprs_view(r@) == col_exprs(efields_view(sch@)),
        r@.len() == sch@.len(),
{
    let ghost sv = efields_view(sch@);
    proof {
        crate::types::lemma_efields_view_index(sch@);
    }
    let mut out: Vec<Expr> = Vec::new();
    let mut i: usize = 0;
    while i < sch.len()
        invariant
            i <= sch.len(),
            sv == efields_view(sch@),
            sv.len() == sch@.len(),
            forall|j: int| 0 <= j < sch@.len() ==> sv[j] == crate::types::efield_view(sch@[j]),
            out@.len() == i,
            forall|j: int| 0 <= j < i ==> crate::expr::expr_view(out@[j]) == (ExprV::Column {
                name: sv[j].name,
            }),
        decreases sch.len() - i,
    {
        out.push(Expr::Column { name: sch[i].name.clone() });
        i = i + 1;
    }
    proof {
        crate::expr::lemma_exprs_view_index(out@);
        assert(crate::expr::exprs_view(out@) =~= col_exprs(sv));
    }
    out
}

/// The column names of a schema, as values.
fn names_of(sch: &Vec<EField>) -> (r: Vec<String>)
    ensures
        crate::plan::names_view(r@) == schema_names(efields_view(sch@)),
        r@.len() == sch@.len(),
{
    let ghost sv = efields_view(sch@);
    proof {
        crate::types::lemma_efields_view_index(sch@);
    }
    let mut out: Vec<String> = Vec::new();
    let mut i: usize = 0;
    while i < sch.len()
        invariant
            i <= sch.len(),
            sv == efields_view(sch@),
            sv.len() == sch@.len(),
            forall|j: int| 0 <= j < sch@.len() ==> sv[j] == crate::types::efield_view(sch@[j]),
            out@.len() == i,
            forall|j: int| 0 <= j < i ==> out@[j]@ == sv[j].name,
        decreases sch.len() - i,
    {
        out.push(sch[i].name.clone());
        i = i + 1;
    }
    proof {
        assert(crate::plan::names_view(out@) =~= schema_names(sv));
    }
    out
}

/// The canonical names of an expression list, as values.
fn derive_names(es: &Vec<Expr>) -> (r: Vec<String>)
    ensures
        crate::plan::names_view(r@) == canon_names(crate::expr::exprs_view(es@)),
        r@.len() == es@.len(),
{
    let ghost ev = crate::expr::exprs_view(es@);
    proof {
        crate::expr::lemma_exprs_view_index(es@);
    }
    let mut out: Vec<String> = Vec::new();
    let mut i: usize = 0;
    while i < es.len()
        invariant
            i <= es.len(),
            ev == crate::expr::exprs_view(es@),
            ev.len() == es@.len(),
            forall|j: int| 0 <= j < es@.len() ==> ev[j] == crate::expr::expr_view(es@[j]),
            out@.len() == i,
            forall|j: int| 0 <= j < i ==> out@[j]@ == canon_name(ev[j]),
        decreases es.len() - i,
    {
        out.push(derive_name(&es[i]));
        i = i + 1;
    }
    proof {
        assert(crate::plan::names_view(out@) =~= canon_names(ev));
    }
    out
}

/// Whether two schemas share a column name — the collision the repair
/// looks for.
fn schemas_share(a: &Vec<EField>, b: &Vec<EField>) -> (r: bool)
    ensures
        r == schemas_collide(efields_view(a@), efields_view(b@)),
{
    let ghost av = efields_view(a@);
    let ghost bv = efields_view(b@);
    proof {
        crate::types::lemma_efields_view_index(a@);
        crate::types::lemma_efields_view_index(b@);
    }
    let mut i: usize = 0;
    while i < a.len()
        invariant
            i <= a.len(),
            av == efields_view(a@),
            bv == efields_view(b@),
            av.len() == a@.len(),
            forall|j: int| 0 <= j < a@.len() ==> av[j] == crate::types::efield_view(a@[j]),
            forall|j: int| 0 <= j < i ==> !crate::expr_xlate::has_col(bv, #[trigger] av[j].name),
        decreases a.len() - i,
    {
        match crate::expr_xlate::find_col(b, &a[i].name) {
            Some(_) => {
                proof {
                    let w = choose|k: int| 0 <= k < bv.len() && bv[k].name == av[i as int].name;
                    assert(schemas_collide(av, bv));
                }
                return true;
            },
            None => {
                proof {
                    assert(!crate::expr_xlate::has_col(bv, av[i as int].name));
                }
            },
        }
        i = i + 1;
    }
    proof {
        if schemas_collide(av, bv) {
            let (wi, wj) = choose|wi: int, wj: int|
                0 <= wi < av.len() && 0 <= wj < bv.len() && av[wi].name == bv[wj].name;
            assert(crate::expr_xlate::has_col(bv, av[wi].name));
            assert(false);
        }
    }
    false
}

/// Builds a projection's output schema: each name paired with its
/// expression's type and nullability over the input schema.
fn build_project_schema(exprs: &Vec<Expr>, names: &Vec<String>, insch: &Vec<EField>) -> (r: Vec<
    EField,
>)
    requires
        crate::producer::exprs_typeable(
            crate::expr::exprs_view(exprs@),
            efields_view(insch@),
        ),
        names@.len() == exprs@.len(),
    ensures
        efields_view(r@) == Seq::new(
            crate::expr::exprs_view(exprs@).len(),
            |i: int|
                EFieldV {
                    name: crate::plan::names_view(names@)[i],
                    ty: crate::plan::type_of(
                        crate::expr::exprs_view(exprs@)[i],
                        efields_view(insch@),
                    ),
                    nullable: crate::plan::nullable_of(
                        crate::expr::exprs_view(exprs@)[i],
                        efields_view(insch@),
                    ),
                },
        ),
{
    let ghost ev = crate::expr::exprs_view(exprs@);
    let ghost sv = efields_view(insch@);
    proof {
        crate::expr::lemma_exprs_view_index(exprs@);
    }
    let mut out: Vec<EField> = Vec::new();
    let mut i: usize = 0;
    while i < exprs.len()
        invariant
            i <= exprs.len(),
            ev == crate::expr::exprs_view(exprs@),
            sv == efields_view(insch@),
            ev.len() == exprs@.len(),
            names@.len() == exprs@.len(),
            forall|j: int| 0 <= j < exprs@.len() ==> ev[j] == crate::expr::expr_view(exprs@[j]),
            crate::producer::exprs_typeable(ev, sv),
            out@.len() == i,
            forall|j: int| 0 <= j < i ==> crate::types::efield_view(out@[j]) == (EFieldV {
                name: names@[j]@,
                ty: crate::plan::type_of(ev[j], sv),
                nullable: crate::plan::nullable_of(ev[j], sv),
            }),
        decreases exprs.len() - i,
    {
        proof {
            assert(crate::producer::expr_typeable(ev[i as int], sv));
        }
        let (t, nul) = crate::producer::expr_type(&exprs[i], insch);
        out.push(EField { name: names[i].clone(), ty: t, nullable: nul });
        i = i + 1;
    }
    proof {
        crate::types::lemma_efields_view_index(out@);
        assert(efields_view(out@) =~= Seq::new(
            ev.len(),
            |j: int|
                EFieldV {
                    name: crate::plan::names_view(names@)[j],
                    ty: crate::plan::type_of(ev[j], sv),
                    nullable: crate::plan::nullable_of(ev[j], sv),
                },
        ));
    }
    out
}

/// Applies a relation's emit block: `Direct` passes the node through,
/// `Remap` wraps it in a projection selecting positions of its schema.
#[verifier::loop_isolation(false)]
fn apply_emit_exec(c: Plan, sch: Vec<EField>, emit: &PEmit) -> (r: Result<
    (Plan, Vec<EField>),
    TranslateError,
>)
    requires
        efields_view(sch@) == schema_of(c@),
    ensures
        (match r {
            Ok(p2) => apply_emit(c@, crate::plan::pemit_view(*emit)) == Ok::<_, TranslateError>(
                p2.0@,
            ) && efields_view(p2.1@) == schema_of(p2.0@),
            Err(e) => apply_emit(c@, crate::plan::pemit_view(*emit)) == Err::<PlanV, _>(e),
        }),
{
    match emit {
        PEmit::Direct => Ok((c, sch)),
        PEmit::Remap(idxs) => {
            let ghost sv = efields_view(sch@);
            proof {
                crate::types::lemma_efields_view_index(sch@);
            }
            let mut sel: Vec<Expr> = Vec::new();
            let mut nsel: Vec<String> = Vec::new();
            let mut i: usize = 0;
            while i < idxs.len()
                invariant
                    i <= idxs.len(),
                    sv == efields_view(sch@),
                    sv.len() == sch@.len(),
                    efields_view(sch@) == schema_of(c@),
                    forall|j: int| 0 <= j < sch@.len() ==> sv[j] == crate::types::efield_view(
                        sch@[j],
                    ),
                    sel@.len() == i,
                    nsel@.len() == i,
                    forall|j: int| 0 <= j < i ==> (#[trigger] idxs@[j]) < sv.len(),
                    forall|j: int| 0 <= j < i ==> crate::expr::expr_view(sel@[j])
                        == (ExprV::Column { name: sv[idxs@[j] as int].name }),
                    forall|j: int| 0 <= j < i ==> nsel@[j]@ == sv[idxs@[j] as int].name,
                decreases idxs.len() - i,
            {
                let idx = idxs[i];
                if idx >= sch.len() as u64 {
                    proof {
                        assert((i as int) < idxs@.len() && !((idxs@[i as int]) < sv.len()));
                        assert(!(forall|j: int|
                            0 <= j < idxs@.len() ==> (#[trigger] idxs@[j]) < sv.len()));
                    }
                    return Err(TranslateError::MalformedPlan);
                }
                let f = &sch[idx as usize];
                sel.push(Expr::Column { name: f.name.clone() });
                nsel.push(f.name.clone());
                i = i + 1;
            }
            proof {
                crate::expr::lemma_exprs_view_index(sel@);
                assert(crate::expr::exprs_view(sel@) =~= Seq::new(
                    idxs@.len(),
                    |j: int| ExprV::Column { name: sv[idxs@[j] as int].name },
                ));
                assert(crate::plan::names_view(nsel@) =~= Seq::new(
                    idxs@.len(),
                    |j: int| sv[idxs@[j] as int].name,
                ));
                assert(forall|j: int|
                    0 <= j < crate::expr::exprs_view(sel@).len()
                        ==> crate::producer::expr_typeable(
                        #[trigger] crate::expr::exprs_view(sel@)[j],
                        sv,
                    ));
            }
            let out_schema = build_project_schema(&sel, &nsel, &sch);
            let wrapped = Plan::Project { input: Box::new(c), exprs: sel, names: nsel };
            proof {
                assert(wrapped@ == apply_emit(c@, crate::plan::pemit_view(*emit))->Ok_0);
                assert(efields_view(out_schema@) =~= schema_of(wrapped@));
            }
            Ok((wrapped, out_schema))
        },
    }
}

/// Left-associated expansion of consumed set inputs, draining `plans`.
fn fold_set_exec(kind: SetKind, plans: &mut Vec<Plan>) -> (r: Plan)
    requires
        old(plans)@.len() >= 1,
    ensures
        r@ == fold_set(kind, crate::plan::plans_view(old(plans)@)),
    decreases old(plans)@.len(),
{
    proof {
        crate::plan::lemma_plans_view_index(plans@);
    }
    let ghost pre = plans@;
    let last = plans.pop().unwrap();
    if plans.len() == 0 {
        proof {
            assert(crate::plan::plans_view(pre) =~= seq![crate::plan::plan_view(last)]);
        }
        last
    } else {
        let left = fold_set_exec(kind, plans);
        proof {
            crate::plan::lemma_plans_view_index(pre);
            assert(crate::plan::plans_view(pre).drop_last() =~= crate::plan::plans_view(
                pre.drop_last(),
            ));
            assert(crate::plan::plans_view(pre).last() == crate::plan::plan_view(last));
        }
        Plan::SetOp { kind, left: Box::new(left), right: Box::new(last) }
    }
}

/// Rebuilds a logical plan node from a portable relation, also handing back
/// the node's output schema.
#[verifier::rlimit(100)]
#[verifier::loop_isolation(false)]
pub fn from_portable_rel(p: &PRel, decls: &Vec<ExtensionDecl>) -> (r: Result<
    (Plan, Vec<EField>),
    TranslateError,
>)
    ensures
        (match r {
            Ok(c) => consume_rel(p@, decls_view(decls@)) == Ok::<_, TranslateError>(c.0@)
                && efields_view(c.1@) == schema_of(c.0@),
            Err(e) => consume_rel(p@, decls_view(decls@)) == Err::<PlanV, _>(e),
        }),
    decreases *p, 1int,
{
    let ghost dv = decls_view(decls@);
    match p {
        PRel::Read { names, schema, common } => {
            match crate::codec::decode_schema(schema) {
                Ok(es) => {
                    let table = crate::table_ref::TableRef::from_names(names);
                    proof {
                        assert(names.deep_view() =~= crate::plan::names_view(names@));
                    }
                    let own = crate::types::clone_efields(&es);
                    let node = Plan::Read { table, schema: es };
                    proof {
                        assert(efields_view(own@) == schema_of(node@));
                    }
                    apply_emit_exec(node, own, &common.emit)
                },
                Err(e) => Err(e),
            }
        },
        PRel::Project { .. } => consume_project_rel(p, decls),
        PRel::Filter { input, condition, common } => {
            match from_portable_rel(input, decls) {
                Ok((c, csch)) => {
                    match crate::expr_xlate::from_portable_expr(condition, &csch, decls) {
                        Ok(pred) => {
                            let node = Plan::Filter { input: Box::new(c), predicate: pred };
                            apply_emit_exec(node, csch, &common.emit)
                        },
                        Err(e) => Err(e),
                    }
                },
                Err(e) => Err(e),
            }
        },
        PRel::Join { .. } => consume_join_rel(p, decls),
        PRel::SetRel { .. } => consume_set_rel(p, decls),
        PRel::Fetch { input, offset, count, common } => {
            match from_portable_rel(input, decls) {
                Ok((c, csch)) => {
                    let node = Plan::Fetch { input: Box::new(c), offset: *offset, count: *count };
                    apply_emit_exec(node, csch, &common.emit)
                },
                Err(e) => Err(e),
            }
        },
        PRel::Sort { input, keys, common } => {
            match from_portable_rel(input, decls) {
                Ok((c, csch)) => {
                    match reconstruct_sortkeys(keys, &csch, decls) {
                        Ok(ks) => {
                            let node = Plan::Sort { input: Box::new(c), keys: ks };
                            apply_emit_exec(node, csch, &common.emit)
                        },
                        Err(e) => Err(e),
                    }
                },
                Err(e) => Err(e),
            }
        },
        PRel::Write { .. } => {
            match from_write_rel(p, decls) {
                Ok(c) => {
                    proof {
                        assert(efields_view(Seq::<EField>::empty()) =~= Seq::<EFieldV>::empty());
                    }
                    Ok((c, Vec::new()))
                },
                Err(e) => Err(e),
            }
        },
    }
}

/// Rebuilds one project relation; split out so each node kind is
/// checked in its own context.
#[verifier::rlimit(100)]
#[verifier::loop_isolation(false)]
fn consume_project_rel(p: &PRel, decls: &Vec<ExtensionDecl>) -> (r: Result<
    (Plan, Vec<EField>),
    TranslateError,
>)
    requires
        p@ matches PRelV::Project { .. },
    ensures
        (match r {
            Ok(c) => consume_rel(p@, decls_view(decls@)) == Ok::<_, TranslateError>(c.0@)
                && efields_view(c.1@) == schema_of(c.0@),
            Err(e) => consume_rel(p@, decls_view(decls@)) == Err::<PlanV, _>(e),
        }),
    decreases *p, 0int,
{
    let ghost dv = decls_view(decls@);
    match p {
        PRel::Project { input, exprs, common } => {
            match from_portable_rel(input, decls) {
                Ok((c, csch)) => {
                    match crate::expr_xlate::reconstruct_args(exprs, &csch, decls) {
                        Ok(es) => {
                            let ghost scv = efields_view(csch@);
                            let ghost esv = crate::expr::exprs_view(es@);
                            proof {
                                crate::expr::lemma_exprs_view_index(es@);
                                lemma_consumed_exprs_typeable(
                                    crate::expr::pexprs_view(exprs@),
                                    scv,
                                    dv,
                                    esv,
                                );
                            }
                            let dn = derive_names(&es);
                            let mut full = columns_of(&csch);
                            let ghost cols_seq = full@;
                            let mut es_m = es;
                            full.append(&mut es_m);
                            let mut fnames = names_of(&csch);
                            let mut dn_m = dn;
                            fnames.append(&mut dn_m);
                            proof {
                                crate::expr::lemma_exprs_view_concat(cols_seq, es@);
                                assert(crate::expr::exprs_view(full@) == col_exprs(scv) + esv);
                                assert(crate::plan::names_view(fnames@) =~= schema_names(scv)
                                    + canon_names(esv));
                                assert(forall|j: int|
                                    0 <= j < crate::expr::exprs_view(full@).len()
                                        ==> crate::producer::expr_typeable(
                                        #[trigger] crate::expr::exprs_view(full@)[j],
                                        scv,
                                    ));
                            }
                            match &common.emit {
                                PEmit::Direct => {
                                    let out_schema = build_project_schema(&full, &fnames, &csch);
                                    let node = Plan::Project {
                                        input: Box::new(c),
                                        exprs: full,
                                        names: fnames,
                                    };
                                    proof {
                                        assert(efields_view(out_schema@) =~= schema_of(node@));
                                    }
                                    Ok((node, out_schema))
                                },
                                PEmit::Remap(idxs) => {
                                    let mut sel: Vec<Expr> = Vec::new();
                                    let mut nsel: Vec<String> = Vec::new();
                                    let ghost fullv = crate::expr::exprs_view(full@);
                                    let ghost fnv = crate::plan::names_view(fnames@);
                                    proof {
                                        crate::expr::lemma_exprs_view_index(full@);
                                    }
                                    let mut i: usize = 0;
                                    while i < idxs.len()
                                        invariant
                                            i <= idxs.len(),
                                            sel@.len() == i,
                                            nsel@.len() == i,
                                            fullv == crate::expr::exprs_view(full@),
                                            fnv == crate::plan::names_view(fnames@),
                                            fullv.len() == full@.len(),
                                            fnv.len() == fnames@.len(),
                                            fnames@.len() == full@.len(),
                                            forall|j: int|
                                                0 <= j < full@.len() ==> fullv[j]
                                                    == crate::expr::expr_view(full@[j]),
                                            forall|j: int|
                                                0 <= j < i ==> (#[trigger] idxs@[j])
                                                    < fullv.len(),
                                            forall|j: int|
                                                0 <= j < i ==> crate::expr::expr_view(sel@[j])
                                                    == fullv[idxs@[j] as int],
                                            forall|j: int|
                                                0 <= j < i ==> nsel@[j]@ == fnv[idxs@[j] as int],
                                        decreases idxs.len() - i,
                                    {
                                        let idx = idxs[i];
                                        if idx >= full.len() as u64 {
                                            proof {
                                                assert((i as int) < idxs@.len() && !((
                                                idxs@[i as int]) < fullv.len()));
                                                assert(!(forall|j: int|
                                                    0 <= j < idxs@.len() ==> (#[trigger] idxs@[j])
                                                        < fullv.len()));
                                            }
                                            return Err(TranslateError::MalformedPlan);
                                        }
                                        sel.push(crate::expr::clone_expr(&full[idx as usize]));
                                        nsel.push(fnames[idx as usize].clone());
                                        i = i + 1;
                                    }
                                    proof {
                                        crate::expr::lemma_exprs_view_index(sel@);
                                        assert(crate::expr::exprs_view(sel@) =~= Seq::new(
                                            idxs@.len(),
                                            |j: int| fullv[idxs@[j] as int],
                                        ));
                                        assert(crate::plan::names_view(nsel@) =~= Seq::new(
                                            idxs@.len(),
                                            |j: int| fnv[idxs@[j] as int],
                                        ));
                                        assert(forall|j: int|
                                            0 <= j < crate::expr::exprs_view(sel@).len()
                                                ==> crate::producer::expr_typeable(
                                                #[trigger] crate::expr::exprs_view(sel@)[j],
                                                scv,
                                            ));
                                    }
                                    let out_schema = build_project_schema(&sel, &nsel, &csch);
                                    let node = Plan::Project {
                                        input: Box::new(c),
                                        exprs: sel,
                                        names: nsel,
                                    };
                                    proof {
                                        assert(efields_view(out_schema@) =~= schema_of(node@));
                                    }
                                    Ok((node, out_schema))
                                },
                            }
                        },
                        Err(e) => Err(e),
                    }
                },
                Err(e) => Err(e),
            }
        },
        _ => {
            proof {
                assert(false);
            }
            Err(TranslateError::MalformedPlan)
        },
    }
}

/// Rebuilds one join relation; split out so each node kind is
/// checked in its own context.
#[verifier::rlimit(100)]
#[verifier::loop_isolation(false)]
fn consume_join_rel(p: &PRel, decls: &Vec<ExtensionDecl>) -> (r: Result<
    (Plan, Vec<EField>),
    TranslateError,
>)
    requires
        p@ matches PRelV::Join { .. },
    ensures
        (match r {
            Ok(c) => consume_rel(p@, decls_view(decls@)) == Ok::<_, TranslateError>(c.0@)
                && efields_view(c.1@) == schema_of(c.0@),
            Err(e) => consume_rel(p@, decls_view(decls@)) == Err::<PlanV, _>(e),
        }),
    decreases *p, 0int,
{
    let ghost dv = decls_view(decls@);
    match p {
        PRel::Join { left, right, jt, on, common } => {
            match from_portable_rel(left, decls) {
                Ok((l, lsch)) => {
                    match from_portable_rel(right, decls) {
                        Ok((r0, rsch)) => {
                            let collide = schemas_share(&lsch, &rsch);
                            let (l2, lsch2) = if collide {
                                let alias = String::from_str("left");
                                proof {
                                    assert(alias@ == left_alias());
                                }
                                let q = crate::producer::qualify_fields(&alias, &lsch);
                                (Plan::Alias { input: Box::new(l), alias }, q)
                            } else {
                                (l, lsch)
                            };
                            let (r2, rsch2) = if collide {
                                let alias = String::from_str("right");
                                proof {
                                    assert(alias@ == right_alias());
                                }
                                let q = crate::producer::qualify_fields(&alias, &rsch);
                                (Plan::Alias { input: Box::new(r0), alias }, q)
                            } else {
                                (r0, rsch)
                            };
                            let ghost l2v = efields_view(lsch2@);
                            let ghost r2v = efields_view(rsch2@);
                            let mut combined = lsch2;
                            let ghost lseq = combined@;
                            let ghost rseq = rsch2@;
                            let mut rsch2_m = rsch2;
                            combined.append(&mut rsch2_m);
                            proof {
                                assert(combined@ == lseq + rseq);
                                crate::types::lemma_efields_view_concat(lseq, rseq);
                                assert(efields_view(lseq) == schema_of(l2@));
                                assert(efields_view(rseq) == schema_of(r2@));
                                assert(efields_view(combined@) == schema_of(l2@) + schema_of(
                                    r2@,
                                ));
                            }
                            match crate::expr_xlate::from_portable_expr(on, &combined, decls) {
                                Ok(cond) => {
                                    let node = Plan::Join {
                                        left: Box::new(l2),
                                        right: Box::new(r2),
                                        jt: *jt,
                                        on: cond,
                                    };
                                    apply_emit_exec(node, combined, &common.emit)
                                },
                                Err(e) => Err(e),
                            }
                        },
                        Err(e) => Err(e),
                    }
                },
                Err(e) => Err(e),
            }
        },
        _ => {
            proof {
                assert(false);
            }
            Err(TranslateError::MalformedPlan)
        },
    }
}

/// Rebuilds one setrel relation; split out so each node kind is
/// checked in its own context.
#[verifier::rlimit(100)]
#[verifier::loop_isolation(false)]
fn consume_set_rel(p: &PRel, decls: &Vec<ExtensionDecl>) -> (r: Result<
    (Plan, Vec<EField>),
    TranslateError,
>)
    requires
        p@ matches PRelV::SetRel { .. },
    ensures
        (match r {
            Ok(c) => consume_rel(p@, decls_view(decls@)) == Ok::<_, TranslateError>(c.0@)
                && efields_view(c.1@) == schema_of(c.0@),
            Err(e) => consume_rel(p@, decls_view(decls@)) == Err::<PlanV, _>(e),
        }),
    decreases *p, 0int,
{
    let ghost dv = decls_view(decls@);
    match p {
        PRel::SetRel { kind, inputs, common } => {
            if inputs.len() < 2 {
                proof {
                    crate::plan::lemma_prels_view_index(inputs@);
                }
                return Err(TranslateError::MalformedPlan);
            }
            let ghost iv = crate::plan::prels_view(inputs@);
            proof {
                crate::plan::lemma_prels_view_index(inputs@);
            }
            let mut consumed: Vec<Plan> = Vec::new();
            let mut first_schema: Vec<EField> = Vec::new();
            let mut i: usize = 0;
            while i < inputs.len()
                invariant
                    i <= inputs.len(),
                    iv == crate::plan::prels_view(inputs@),
                    iv.len() == inputs@.len(),
                    forall|j: int| 0 <= j < inputs@.len() ==> iv[j] == crate::plan::prel_view(
                        inputs@[j],
                    ),
                    consumed@.len() == i,
                    consume_rels(iv.subrange(0, i as int), dv) == Ok::<_, TranslateError>(
                        crate::plan::plans_view(consumed@),
                    ),
                    i > 0 ==> efields_view(first_schema@) == schema_of(
                        crate::plan::plans_view(consumed@)[0],
                    ),
                decreases inputs.len() - i,
            {
                proof {
                    assert(decreases_to!(*p => inputs@[i as int]));
                }
                let ghost cons_pre = consumed@;
                match from_portable_rel(&inputs[i], decls) {
                    Ok((c, csch)) => {
                        consumed.push(c);
                        if i == 0 {
                            first_schema = csch;
                        }
                        proof {
                            lemma_consume_rels_unfold_prefix(iv, dv, i as int);
                            assert(consumed@.drop_last() =~= cons_pre);
                            assert(crate::plan::plans_view(consumed@)
                                == crate::plan::plans_view(cons_pre).push(
                                crate::plan::plan_view(consumed@.last()),
                            ));
                            crate::plan::lemma_plans_view_index(consumed@);
                        }
                    },
                    Err(e) => {
                        proof {
                            lemma_consume_rels_unfold_prefix(iv, dv, i as int);
                            lemma_consume_rels_err_extends(iv, dv, i as int + 1);
                        }
                        return Err(e);
                    },
                }
                i = i + 1;
            }
            proof {
                assert(iv.subrange(0, inputs@.len() as int) =~= iv);
            }
            let ghost consumed_v = crate::plan::plans_view(consumed@);
            let folded = fold_set_exec(*kind, &mut consumed);
            proof {
                lemma_fold_set_schema(*kind, consumed_v);
            }
            apply_emit_exec(folded, first_schema, &common.emit)
        },
        _ => {
            proof {
                assert(false);
            }
            Err(TranslateError::MalformedPlan)
        },
    }
}


/// Consumed expression lists can be typed against the schema they were
/// consumed with.
proof fn lemma_consumed_exprs_typeable(
    ps: Seq<PExprV>,
    schema: Seq<EFieldV>,
    decls: Seq<ExtKeyV>,
    es: Seq<ExprV>,
)
    requires
        consume_exprs(ps, schema, decls) == Ok::<_, TranslateError>(es),
    ensures
        forall|i: int|
            0 <= i < es.len() ==> crate::producer::expr_typeable(#[trigger] es[i], schema),
    decreases ps.len(),
{
    if ps.len() == 0 {
    } else {
        let rest = consume_exprs(ps.drop_last(), schema, decls)->Ok_0;
        lemma_consumed_exprs_typeable(ps.drop_last(), schema, decls, rest);
        lemma_consumed_typeable(ps.last(), schema, decls);
        assert(forall|i: int| 0 <= i < rest.len() ==> es[i] == rest[i]);
        assert(es.last() == consume_expr(ps.last(), schema, decls)->Ok_0);
    }
}

/// One unfolding step of [`consume_sortkeys`] over a growing prefix.
proof fn lemma_consume_sortkeys_unfold_prefix(
    s: Seq<crate::plan::PSortKeyV>,
    schema: Seq<EFieldV>,
    decls: Seq<ExtKeyV>,
    i: int,
)
    requires
        0 <= i < s.len(),
    ensures
        consume_sortkeys(s.subrange(0, i + 1), schema, decls) == (match consume_sortkeys(
            s.subrange(0, i),
            schema,
            decls,
        ) {
            Ok(rest) => match consume_expr(s[i].expr, schema, decls) {
                Ok(e) => Ok::<_, TranslateError>(
                    rest.push(
                        crate::plan::SortKeyV {
                            expr: e,
                            asc: s[i].asc,
                            nulls_first: s[i].nulls_first,
                        },
                    ),
                ),
                Err(e) => Err(e),
            },
            Err(e) => Err(e),
        }),
{
    let pre = s.subrange(0, i + 1);
    assert(pre.drop_last() =~= s.subrange(0, i));
    assert(pre.last() == s[i]);
}

/// Once a prefix of sort keys fails to consume, the whole list fails the
/// same way.
proof fn lemma_consume_sortkeys_err_extends(
    s: Seq<crate::plan::PSortKeyV>,
    schema: Seq<EFieldV>,
    decls: Seq<ExtKeyV>,
    i: int,
)
    requires
        0 <= i <= s.len(),
        consume_sortkeys(s.subrange(0, i), schema, decls) is Err,
    ensures
        consume_sortkeys(s, schema, decls) == consume_sortkeys(s.subrange(0, i), schema, decls),
    decreases s.len(),
{
    if i == s.len() {
        assert(s.subrange(0, i) =~= s);
    } else {
        assert(s.drop_last().subrange(0, i) =~= s.subrange(0, i));
        lemma_consume_sortkeys_err_extends(s.drop_last(), schema, decls, i);
    }
}

/// Rebuilds a portable sort-key list left to right.
#[verifier::loop_isolation(false)]
fn reconstruct_sortkeys(
    keys: &Vec<crate::plan::PSortKey>,
    schema: &Vec<EField>,
    decls: &Vec<ExtensionDecl>,
) -> (r: Result<Vec<crate::plan::SortKey>, TranslateError>)
    ensures
        (match r {
            Ok(ks) => consume_sortkeys(
                crate::plan::psortkeys_view(keys@),
                efields_view(schema@),
                decls_view(decls@),
            ) == Ok::<_, TranslateError>(crate::plan::sortkeys_view(ks@)),
            Err(e) => consume_sortkeys(
                crate::plan::psortkeys_view(keys@),
                efields_view(schema@),
                decls_view(decls@),
            ) == Err::<Seq<crate::plan::SortKeyV>, _>(e),
        }),
    decreases keys,
{
    let ghost kv = crate::plan::psortkeys_view(keys@);
    let ghost sv = efields_view(schema@);
    let ghost dv = decls_view(decls@);
    proof {
        crate::plan::lemma_psortkeys_view_index(keys@);
        assert(kv.subrange(0, 0) =~= Seq::<crate::plan::PSortKeyV>::empty());
    }
    let mut out: Vec<crate::plan::SortKey> = Vec::new();
    let mut i: usize = 0;
    while i < keys.len()
        invariant
            i <= keys.len(),
            kv == crate::plan::psortkeys_view(keys@),
            sv == efields_view(schema@),
            dv == decls_view(decls@),
            kv.len() == keys@.len(),
            forall|j: int| 0 <= j < keys@.len() ==> kv[j] == crate::plan::psortkey_view(
                keys@[j],
            ),
            consume_sortkeys(kv.subrange(0, i as int), sv, dv) == Ok::<_, TranslateError>(
                crate::plan::sortkeys_view(out@),
            ),
        decreases keys.len() - i,
    {
        let ghost out_pre = out@;
        let k = &keys[i];
        match crate::expr_xlate::from_portable_expr(&k.expr, schema, decls) {
            Ok(e) => {
                out.push(
                    crate::plan::SortKey { expr: e, asc: k.asc, nulls_first: k.nulls_first },
                );
                proof {
                    lemma_consume_sortkeys_unfold_prefix(kv, sv, dv, i as int);
                    assert(out@.drop_last() =~= out_pre);
                    assert(crate::plan::sortkeys_view(out@) =~= crate::plan::sortkeys_view(
                        out_pre,
                    ).push(crate::plan::sortkey_view(out@.last())));
                }
            },
            Err(e) => {
                proof {
                    lemma_consume_sortkeys_unfold_prefix(kv, sv, dv, i as int);
                    lemma_consume_sortkeys_err_extends(kv, sv, dv, i as int + 1);
                }
                return Err(e);
            },
        }
        i = i + 1;
    }
    proof {
        assert(kv.subrange(0, keys@.len() as int) =~= kv);
    }
    Ok(out)
}

/// Rebuilds a CREATE-TABLE-AS-SELECT from a portable `Write` relation: only
/// CREATE is supported, the input child is required, and the target table
/// reference is read back by the 1/2/3-component convention, any other
/// target degrading to the bare fallback name.
pub fn from_write_rel(write: &PRel, decls: &Vec<ExtensionDecl>) -> (r: Result<
    Plan,
    TranslateError,
>)
    requires
        write@ matches PRelV::Write { .. },
    ensures
        (match r {
            Ok(c) => consume_rel(write@, decls_view(decls@)) == Ok::<_, TranslateError>(c@),
            Err(e) => consume_rel(write@, decls_view(decls@)) == Err::<PlanV, _>(e),
        }),
    decreases *write, 0int,
{
    match write {
        PRel::Write { op, input, target, .. } => {
            if *op != WriteOp::Create {
                return Err(TranslateError::UnsupportedOperation);
            }
            match input {
                Some(inner) => {
                    match from_portable_rel(inner, decls) {
                        Ok((c, _csch)) => {
                            let name = match target {
                                Some(WriteTarget::NamedTable { names }) => {
                                    let t = crate::table_ref::TableRef::from_names(names);
                                    proof {
                                        assert(names.deep_view() =~= crate::plan::names_view(
                                            names@,
                                        ));
                                    }
                                    t
                                },
                                _ => crate::table_ref::TableRef::bare(String::from_str("table")),
                            };
                            Ok(
                                Plan::CreateTable {
                                    name,
                                    input: Box::new(c),
                                    if_not_exists: true,
                                    or_replace: false,
                                    temporary: false,
                                },
                            )
                        },
                        Err(e) => Err(e),
                    }
                },
                None => Err(TranslateError::MalformedPlan),
            }
        },
        _ => {
            proof {
                assert(false);
            }
            Err(TranslateError::UnsupportedOperation)
        },
    }
}

/// Whether two name lists are equal.
fn names_equal(a: &Vec<String>, b: &Vec<String>) -> (r: bool)
    ensures
        r == (crate::plan::names_view(a@) == crate::plan::names_view(b@)),
{
    let ghost av = crate::plan::names_view(a@);
    let ghost bv = crate::plan::names_view(b@);
    if a.len() != b.len() {
        proof {
            assert(av.len() != bv.len());
        }
        return false;
    }
    let mut i: usize = 0;
    while i < a.len()
        invariant
            i <= a.len(),
            av == crate::plan::names_view(a@),
            bv == crate::plan::names_view(b@),
            a@.len() == b@.len(),
            av.len() == a@.len(),
            bv.len() == b@.len(),
            forall|j: int| 0 <= j < i ==> av[j] == bv[j],
        decreases a.len() - i,
    {
        if !(a[i] == b[i]) {
            proof {
                assert(av[i as int] != bv[i as int]);
            }
            return false;
        }
        i = i + 1;
    }
    proof {
        assert(av =~= bv);
    }
    true
}

/// Consumes a whole portable envelope back into a logical plan, restoring
/// the root's declared output names with a renaming projection when the
/// rebuilt plan's names differ.
pub fn from_portable_plan(pp: &PPlan) -> (r: Result<Plan, TranslateError>)
    ensures
        (match r {
            Ok(c) => consume_plan(pp@) == Ok::<_, TranslateError>(c@),
            Err(e) => consume_plan(pp@) == Err::<PlanV, _>(e),
        }),
{
    match from_portable_rel(&pp.root, &pp.extensions) {
        Ok((c, sch)) => {
            let ns = names_of(&sch);
            if names_equal(&ns, &pp.root_names) {
                Ok(c)
            } else if ns.len() == pp.root_names.len() {
                let cols = columns_of(&sch);
                let rn = crate::table_ref::clone_string_vec(&pp.root_names);
                proof {
                    assert(crate::plan::names_view(rn@) =~= crate::plan::names_view(
                        pp.root_names@,
                    ));
                }
                let node = Plan::Project { input: Box::new(c), exprs: cols, names: rn };
                Ok(node)
            } else {
                Err(TranslateError::MalformedPlan)
            }
        },
        Err(e) => Err(e),
    }
}

} // verus!
