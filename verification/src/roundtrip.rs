use vstd::prelude::*;
use vstd::seq_lib::*;
use crate::error::TranslateError;
use crate::expr_xlate::{
    produce_exprs, expr_exact, exprs_exact, lemma_exprs_roundtrip, lemma_expr_roundtrip,
    lemma_produce_expr_extends, lemma_produce_exprs_extends, lemma_prefix_trans,
};
use crate::plan::{
    PlanV, PRelV, PEmitV, WriteOp, SetKind, schema_of, schema_names, schemas_collide, canon_name,
};
use crate::producer::{produce_rel, produce_set_inputs, produce_plan, lemma_produce_rel_extends,
    lemma_produce_set_inputs_extends};
use crate::consumer::{
    consume_rel, consume_rels, consume_plan, fold_set, col_exprs, canon_names,
};
use crate::registry::ExtKeyV;
use crate::codec::lemma_schema_roundtrip;

verus! {

// ---------------------------------------------------------------------------
// Which plans the translation reproduces verbatim.
// ---------------------------------------------------------------------------
/// The plans whose portable form consumes back to exactly the plan itself.
///
/// Outside this set the translation still works, but only up to the
/// documented normalizations: subquery aliases are dropped by the producer
/// (and reintroduced by the consumer only to repair collisions), a
/// colliding join comes back wrapped in synthetic aliases, a project with
/// non-canonical output names comes back canonically named (the root's
/// names are restored by a renaming projection), a lossy literal comes back
/// as its string-cast form, and a CTAS keeps the consumer-side defaults for
/// its flags.
pub open spec fn roundtrippable(p: PlanV) -> bool
    decreases p,
{
    match p {
        PlanV::Read { table, .. } => 1 <= table.len() <= 3,
        PlanV::Project { input, exprs, names } => roundtrippable(*input) && exprs_exact(exprs)
            && names == canon_names(exprs),
        PlanV::Filter { input, predicate } => roundtrippable(*input) && expr_exact(predicate),
        PlanV::Join { left, right, on, .. } => roundtrippable(*left) && roundtrippable(*right)
            && !schemas_collide(schema_of(*left), schema_of(*right)) && expr_exact(on),
        PlanV::SetOp { left, right, .. } => roundtrippable(*left) && roundtrippable(*right),
        PlanV::Fetch { input, .. } => roundtrippable(*input),
        PlanV::Sort { input, keys } => roundtrippable(*input) && sortkeys_exact(keys),
        PlanV::Alias { .. } => false,
        PlanV::CreateTable { name, input, if_not_exists, or_replace, temporary } => 1 <= name.len()
            <= 3 && roundtrippable(*input) && if_not_exists && !or_replace && !temporary,
        PlanV::DropTable { .. } => false,
    }
}

/// Whether every literal in a sort-key list encodes exactly.
pub open spec fn sortkeys_exact(s: Seq<crate::plan::SortKeyV>) -> bool
    decreases s,
{
    if s.len() == 0 {
        true
    } else {
        sortkeys_exact(s.drop_last()) && expr_exact(s.last().expr)
    }
}

/// The left spine of a same-kind set-operation nest, in input order: what
/// the producer flattens one multi-input set node from.
pub open spec fn set_spine(kind: SetKind, q: PlanV) -> Seq<PlanV>
    decreases q,
{
    match q {
        PlanV::SetOp { kind: k2, left, right } => if k2 == kind {
            set_spine(kind, *left).push(*right)
        } else {
            seq![q]
        },
        _ => seq![q],
    }
}

// ---------------------------------------------------------------------------
// Set-operation flattening and expansion are inverse.
// ---------------------------------------------------------------------------
/// Expanding the flattened inputs of a set-operation nest left-associatively
/// reproduces the nest: same associativity, same kind, same subtrees.
pub proof fn lemma_flatten_expand_inverse(kind: SetKind, q: PlanV)
    ensures
        set_spine(kind, q).len() >= 1,
        fold_set(kind, set_spine(kind, q)) == q,
    decreases q,
{
    match q {
        PlanV::SetOp { kind: k2, left, right } => {
            if k2 == kind {
                lemma_flatten_expand_inverse(kind, *left);
                let sp = set_spine(kind, *left);
                assert(sp.push(*right).drop_last() =~= sp);
                assert(sp.push(*right).last() == *right);
            }
        },
        _ => {},
    }
}

/// Flattening the left-associated expansion of `N` inputs reproduces the
/// `N` inputs, provided the first is not itself a same-kind set operation
/// (which the flattening would merge, as the producer does).
pub proof fn lemma_expand_flatten_inverse(kind: SetKind, plans: Seq<PlanV>)
    requires
        plans.len() >= 1,
        !(plans[0] matches PlanV::SetOp { kind: k2, .. } && k2 == kind),
    ensures
        set_spine(kind, fold_set(kind, plans)) == plans,
    decreases plans.len(),
{
    if plans.len() == 1 {
        assert(set_spine(kind, fold_set(kind, plans)) =~= plans);
    } else {
        assert(plans.drop_last()[0] == plans[0]);
        lemma_expand_flatten_inverse(kind, plans.drop_last());
        assert(set_spine(kind, fold_set(kind, plans)) =~= plans);
    }
}

// ---------------------------------------------------------------------------
// The relation-level round trip.
// ---------------------------------------------------------------------------
/// A produced relation consumed back — against any declaration list that
/// extends the one production ended with — is exactly the plan produced
/// from.
#[verifier::rlimit(100)]
pub proof fn lemma_rel_roundtrip(p: PlanV, exts: Seq<ExtKeyV>, decls: Seq<ExtKeyV>)
    requires
        roundtrippable(p),
        produce_rel(p, exts) is Ok,
        produce_rel(p, exts)->Ok_0.1.is_prefix_of(decls),
    ensures
        consume_rel(produce_rel(p, exts)->Ok_0.0, decls) == Ok::<_, TranslateError>(p),
    decreases p, 0int,
{
    let pr = produce_rel(p, exts)->Ok_0.0;
    match p {
        PlanV::Read { table, schema } => {
            lemma_schema_roundtrip(schema);
            assert(p =~= PlanV::Read { table, schema });
        },
        PlanV::Project { input, exprs, names } => {
            let insch = schema_of(*input);
            let s1 = produce_rel(*input, exts)->Ok_0.1;
            let pes_r = produce_exprs(exprs, insch, s1)->Ok_0;
            let pes = pes_r.0;
            let s2 = pes_r.1;
            let n = insch.len() as int;
            let k = exprs.len() as int;
            lemma_produce_exprs_extends(exprs, insch, s1);
            lemma_rel_roundtrip(*input, exts, decls);
            lemma_exprs_roundtrip(exprs, insch, s1, decls);
            let idxs = Seq::new(exprs.len(), |i: int| (n + i) as u64);
            let full = col_exprs(insch) + exprs;
            let fnames = schema_names(insch) + canon_names(exprs);
            assert(forall|i: int| 0 <= i < idxs.len() ==> (#[trigger] idxs[i]) < full.len());
            assert(Seq::new(idxs.len(), |i: int| full[idxs[i] as int]) =~= exprs);
            assert(Seq::new(idxs.len(), |i: int| fnames[idxs[i] as int]) =~= canon_names(exprs));
            assert(p =~= PlanV::Project { input, exprs, names });
        },
        PlanV::Filter { input, predicate } => {
            let s1 = produce_rel(*input, exts)->Ok_0.1;
            lemma_produce_expr_extends(predicate, schema_of(*input), s1);
            lemma_rel_roundtrip(*input, exts, decls);
            lemma_expr_roundtrip(predicate, schema_of(*input), s1, decls);
            assert(p =~= PlanV::Filter { input, predicate });
        },
        PlanV::Join { left, right, jt, on } => {
            let s1 = produce_rel(*left, exts)->Ok_0.1;
            let s2 = produce_rel(*right, s1)->Ok_0.1;
            let combined = schema_of(*left) + schema_of(*right);
            lemma_produce_rel_extends(*right, s1);
            lemma_produce_expr_extends(on, combined, s2);
            lemma_prefix_trans(s2, produce_expr_state(on, combined, s2), decls);
            lemma_rel_roundtrip(*left, exts, decls);
            lemma_rel_roundtrip(*right, s1, decls);
            lemma_expr_roundtrip(on, combined, s2, decls);
            assert(p =~= PlanV::Join { left, right, jt, on });
        },
        PlanV::SetOp { kind, left, right } => {
            let s1 = produce_set_inputs(kind, *left, exts)->Ok_0.1;
            let ins = produce_set_inputs(kind, *left, exts)->Ok_0.0;
            let s2 = produce_rel(*right, s1)->Ok_0.1;
            let prr = produce_rel(*right, s1)->Ok_0.0;
            lemma_produce_rel_extends(*right, s1);
            lemma_set_inputs_roundtrip(kind, *left, exts, decls);
            lemma_rel_roundtrip(*right, s1, decls);
            let inputs = ins.push(prr);
            assert(inputs.drop_last() =~= ins);
            assert(inputs.last() == prr);
            let spine = set_spine(kind, *left);
            assert(consume_rels(inputs, decls) == Ok::<_, TranslateError>(spine.push(*right)));
            lemma_flatten_expand_inverse(kind, *left);
            assert(spine.push(*right).drop_last() =~= spine);
            assert(fold_set(kind, spine.push(*right)) == p);
        },
        PlanV::Fetch { input, offset, count } => {
            lemma_rel_roundtrip(*input, exts, decls);
            assert(p =~= PlanV::Fetch { input, offset, count });
        },
        PlanV::Sort { input, keys } => {
            let s1 = produce_rel(*input, exts)->Ok_0.1;
            crate::producer::lemma_produce_sortkeys_extends(keys, schema_of(*input), s1);
            lemma_rel_roundtrip(*input, exts, decls);
            lemma_sortkeys_roundtrip(keys, schema_of(*input), s1, decls);
            assert(p =~= PlanV::Sort { input, keys });
        },
        PlanV::Alias { .. } => {},
        PlanV::CreateTable { name, input, if_not_exists, or_replace, temporary } => {
            lemma_rel_roundtrip(*input, exts, decls);
            assert(p =~= PlanV::CreateTable { name, input, if_not_exists, or_replace, temporary });
        },
        PlanV::DropTable { .. } => {},
    }
}

/// The declaration list produced by one expression (helper to name the
/// state in proofs).
pub open spec fn produce_expr_state(
    e: crate::expr::ExprV,
    schema: Seq<crate::types::EFieldV>,
    exts: Seq<ExtKeyV>,
) -> Seq<ExtKeyV> {
    match crate::expr_xlate::produce_expr(e, schema, exts) {
        Ok(r) => r.1,
        Err(_) => exts,
    }
}

/// The round trip of a sort-key list, elementwise and in order.
pub proof fn lemma_sortkeys_roundtrip(
    s: Seq<crate::plan::SortKeyV>,
    schema: Seq<crate::types::EFieldV>,
    exts: Seq<ExtKeyV>,
    decls: Seq<ExtKeyV>,
)
    requires
        sortkeys_exact(s),
        crate::producer::produce_sortkeys(s, schema, exts) is Ok,
        crate::producer::produce_sortkeys(s, schema, exts)->Ok_0.1.is_prefix_of(decls),
    ensures
        crate::consumer::consume_sortkeys(
            crate::producer::produce_sortkeys(s, schema, exts)->Ok_0.0,
            schema,
            decls,
        ) == Ok::<_, TranslateError>(s),
    decreases s,
{
    let r = crate::producer::produce_sortkeys(s, schema, exts)->Ok_0;
    if s.len() == 0 {
        assert(r.0.len() == 0);
        assert(crate::consumer::consume_sortkeys(r.0, schema, decls)->Ok_0 =~= s);
    } else {
        let mid_r = crate::producer::produce_sortkeys(s.drop_last(), schema, exts)->Ok_0;
        let rest = mid_r.0;
        let mid = mid_r.1;
        let pe_r = crate::expr_xlate::produce_expr(s.last().expr, schema, mid)->Ok_0;
        lemma_produce_expr_extends(s.last().expr, schema, mid);
        lemma_prefix_trans(mid, r.1, decls);
        lemma_sortkeys_roundtrip(s.drop_last(), schema, exts, decls);
        lemma_expr_roundtrip(s.last().expr, schema, mid, decls);
        assert(r.0.drop_last() =~= rest);
        assert(r.0.last() == (crate::plan::PSortKeyV {
            expr: pe_r.0,
            asc: s.last().asc,
            nulls_first: s.last().nulls_first,
        }));
        assert(s.last() =~= (crate::plan::SortKeyV {
            expr: s.last().expr,
            asc: s.last().asc,
            nulls_first: s.last().nulls_first,
        }));
        assert(crate::consumer::consume_sortkeys(r.0, schema, decls)->Ok_0 =~= s);
    }
}

/// Consuming a one-element relation list is consuming its element.
proof fn lemma_consume_rels_singleton(pr: PRelV, q: PlanV, decls: Seq<ExtKeyV>)
    requires
        consume_rel(pr, decls) == Ok::<_, TranslateError>(q),
    ensures
        consume_rels(seq![pr], decls) == Ok::<_, TranslateError>(seq![q]),
{
    let s = seq![pr];
    assert(s.drop_last() =~= Seq::<PRelV>::empty());
    assert(s.last() == pr);
    assert(consume_rels(Seq::<PRelV>::empty(), decls) == Ok::<_, TranslateError>(
        Seq::<PlanV>::empty(),
    ));
    assert(consume_rels(s, decls) == Ok::<_, TranslateError>(Seq::<PlanV>::empty().push(q)));
    assert(Seq::<PlanV>::empty().push(q) =~= seq![q]);
}

/// One unfolding step of [`consume_rels`] at the tail.
proof fn lemma_consume_rels_push(s: Seq<PRelV>, last: PRelV, decls: Seq<ExtKeyV>)
    ensures
        consume_rels(s.push(last), decls) == (match consume_rels(s, decls) {
            Ok(rest) => match consume_rel(last, decls) {
                Ok(c) => Ok::<_, TranslateError>(rest.push(c)),
                Err(e) => Err(e),
            },
            Err(e) => Err(e),
        }),
{
    assert(s.push(last).drop_last() =~= s);
    assert(s.push(last).last() == last);
}

/// The flattened inputs of a set-operation spine consume back to the spine
/// itself, elementwise and in order.
pub proof fn lemma_set_inputs_roundtrip(
    kind: SetKind,
    q: PlanV,
    exts: Seq<ExtKeyV>,
    decls: Seq<ExtKeyV>,
)
    requires
        roundtrippable(q),
        produce_set_inputs(kind, q, exts) is Ok,
        produce_set_inputs(kind, q, exts)->Ok_0.1.is_prefix_of(decls),
    ensures
        produce_set_inputs(kind, q, exts)->Ok_0.0.len() == set_spine(kind, q).len(),
        set_spine(kind, q).len() >= 1,
        consume_rels(produce_set_inputs(kind, q, exts)->Ok_0.0, decls) == Ok::<
            _,
            TranslateError,
        >(set_spine(kind, q)),
    decreases q, 1int,
{
    match q {
        PlanV::SetOp { kind: k2, left, right } => {
            if k2 == kind {
                let s1 = produce_set_inputs(kind, *left, exts)->Ok_0.1;
                let ins = produce_set_inputs(kind, *left, exts)->Ok_0.0;
                let prr = produce_rel(*right, s1)->Ok_0.0;
                lemma_produce_rel_extends(*right, s1);
                lemma_set_inputs_roundtrip(kind, *left, exts, decls);
                lemma_rel_roundtrip(*right, s1, decls);
                lemma_consume_rels_push(ins, prr, decls);
                assert(consume_rels(ins, decls) == Ok::<_, TranslateError>(set_spine(kind, *left)));
                assert(consume_rel(prr, decls) == Ok::<_, TranslateError>(*right));
                assert(consume_rels(ins.push(prr), decls) == Ok::<_, TranslateError>(
                    set_spine(kind, *left).push(*right),
                ));
                assert(set_spine(kind, q) == set_spine(kind, *left).push(*right));
            } else {
                lemma_rel_roundtrip(q, exts, decls);
                let pr = produce_rel(q, exts)->Ok_0.0;
                lemma_consume_rels_singleton(pr, q, decls);
                assert(set_spine(kind, q) =~= seq![q]);
            }
        },
        _ => {
            lemma_rel_roundtrip(q, exts, decls);
            let pr = produce_rel(q, exts)->Ok_0.0;
            lemma_consume_rels_singleton(pr, q, decls);
            assert(set_spine(kind, q) =~= seq![q]);
        },
    }
}

// ---------------------------------------------------------------------------
// The whole-plan round trip.
// ---------------------------------------------------------------------------
/// Round-trip equivalence: for any plan in the reproducible set, consuming
/// what the producer emitted yields exactly the plan itself — same tree,
/// and so the same schema.
pub proof fn lemma_plan_roundtrip(p: PlanV)
    requires
        roundtrippable(p),
        produce_plan(p) is Ok,
    ensures
        consume_plan(produce_plan(p)->Ok_0) == Ok::<_, TranslateError>(p),
        schema_of(consume_plan(produce_plan(p)->Ok_0)->Ok_0) == schema_of(p),
    decreases p,
{
    let exts0 = Seq::<ExtKeyV>::empty();
    let r = produce_rel(p, exts0)->Ok_0;
    assert(r.1.subrange(0, r.1.len() as int) =~= r.1);
    assert(r.1.is_prefix_of(r.1));
    lemma_rel_roundtrip(p, exts0, r.1);
}

// ---------------------------------------------------------------------------
// The write path, end to end.
// ---------------------------------------------------------------------------
/// Write round trip: a CREATE-TABLE-AS-SELECT produced and consumed keeps
/// its target reference's components exactly — three components stay three,
/// a bare name stays bare.
pub proof fn lemma_write_roundtrip(p: PlanV, exts: Seq<ExtKeyV>, decls: Seq<ExtKeyV>)
    requires
        p matches PlanV::CreateTable { .. },
        roundtrippable(p),
        produce_rel(p, exts) is Ok,
        produce_rel(p, exts)->Ok_0.1.is_prefix_of(decls),
    ensures
        consume_rel(produce_rel(p, exts)->Ok_0.0, decls) matches Ok(c) && c matches
            PlanV::CreateTable { name, .. } && name == p->CreateTable_name,
{
    lemma_rel_roundtrip(p, exts, decls);
}

/// Non-CREATE write rejection: a portable `Write` whose operation is not
/// CREATE consumes to `UnsupportedOperation`, never to a plan.
pub proof fn lemma_non_create_write_rejected(w: PRelV, decls: Seq<ExtKeyV>)
    requires
        w matches PRelV::Write { op, .. } && op != WriteOp::Create,
    ensures
        consume_rel(w, decls) == Err::<PlanV, _>(TranslateError::UnsupportedOperation),
{
}

} // verus!
