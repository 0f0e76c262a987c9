use vstd::prelude::*;
use vstd::seq_lib::*;
use crate::error::TranslateError;
use crate::types::{EField, EFieldV, efields_view, efield_view, lemma_efields_view_index};
use crate::codec::{enc_type, dec_type, encode_type, decode_type};
use crate::literal::{enc_literal, dec_literal, encode_literal, decode_literal, ELitV};
use crate::expr::{
    Expr, ExprV, PExpr, PExprV, WhenThen, PWhenThen, WhenThenV, PWhenThenV, expr_view, exprs_view,
    pexpr_view, pexprs_view, whenthen_view, whenthens_view, pwhenthen_view, pwhenthens_view,
    lemma_exprs_view_index, lemma_pexprs_view_index, lemma_whenthens_view_index,
    lemma_pwhenthens_view_index,
};
use crate::registry::{
    ExtensionDecl, ExtKeyV, Registry, decls_view, register_spec, lemma_register_extends,
    lemma_first_index,
};

verus! {

// ---------------------------------------------------------------------------
// Column resolution.
// ---------------------------------------------------------------------------
/// Whether a schema has a column of the given name.
pub open spec fn has_col(schema: Seq<EFieldV>, name: Seq<char>) -> bool {
    exists|i: int| 0 <= i < schema.len() && schema[i].name == name
}

/// The first position of a column name in a schema; the length when absent.
pub open spec fn name_index(schema: Seq<EFieldV>, name: Seq<char>) -> int
    decreases schema.len(),
{
    if schema.len() == 0 {
        0
    } else if schema[0].name == name {
        0
    } else {
        1 + name_index(schema.subrange(1, schema.len() as int), name)
    }
}

/// How [`name_index`] relates to the schema's fields.
pub proof fn lemma_name_index(schema: Seq<EFieldV>, name: Seq<char>)
    ensures
        has_col(schema, name) ==> 0 <= name_index(schema, name) < schema.len() && schema[name_index(
            schema,
            name,
        )].name == name && (forall|j: int|
            0 <= j < name_index(schema, name) ==> schema[j].name != name),
        !has_col(schema, name) ==> name_index(schema, name) == schema.len(),
    decreases schema.len(),
{
    if schema.len() > 0 {
        let rest = schema.subrange(1, schema.len() as int);
        lemma_name_index(rest, name);
        if schema[0].name != name {
            assert(forall|i: int| 1 <= i < schema.len() ==> schema[i] == rest[i - 1]);
            if has_col(schema, name) {
                let w = choose|i: int| 0 <= i < schema.len() && schema[i].name == name;
                assert(rest[w - 1].name == name);
                assert(has_col(rest, name));
            }
            if has_col(rest, name) {
                let w = choose|i: int| 0 <= i < rest.len() && rest[i].name == name;
                assert(schema[w + 1].name == name);
                assert(has_col(schema, name));
            }
        }
    }
}

// ---------------------------------------------------------------------------
// Specification of the expression translation, both directions.
// ---------------------------------------------------------------------------
/// Production of one engine expression against the schema of its input,
/// threading the extension declaration list through in evaluation order:
/// the function key of a call is registered first, then its arguments, left
/// to right.
pub open spec fn produce_expr(e: ExprV, schema: Seq<EFieldV>, exts: Seq<ExtKeyV>) -> Result<
    (PExprV, Seq<ExtKeyV>),
    TranslateError,
>
    decreases e, 0int,
{
    match e {
        ExprV::Column { name } => if has_col(schema, name) {
            Ok((PExprV::Field(name_index(schema, name)), exts))
        } else {
            Err(TranslateError::MalformedPlan)
        },
        ExprV::Literal(l) => match enc_literal(l) {
            Ok(r) => Ok((PExprV::Lit(r.0), exts)),
            Err(err) => Err(err),
        },
        ExprV::ScalarFn { name, signature, args, ret, ret_nullable } => {
            let (s1, a) = register_spec(exts, ExtKeyV { name, signature });
            match produce_exprs(args, schema, s1) {
                Ok((pargs, s2)) => match enc_type(ret, ret_nullable) {
                    Ok(pt) => Ok((PExprV::ScalarFn { anchor: a, args: pargs, ret: pt }, s2)),
                    Err(err) => Err(err),
                },
                Err(err) => Err(err),
            }
        },
        ExprV::WindowFn { name, signature, args, frame, ret, ret_nullable } => {
            let (s1, a) = register_spec(exts, ExtKeyV { name, signature });
            match produce_exprs(args, schema, s1) {
                Ok((pargs, s2)) => match enc_type(ret, ret_nullable) {
                    Ok(pt) => Ok(
                        (PExprV::WindowFn { anchor: a, args: pargs, frame, ret: pt }, s2),
                    ),
                    Err(err) => Err(err),
                },
                Err(err) => Err(err),
            }
        },
        ExprV::Cast { input, ty, nullable, safe } => match produce_expr(*input, schema, exts) {
            Ok((pi, s1)) => match enc_type(ty, nullable) {
                Ok(pt) => Ok((PExprV::Cast { input: Box::new(pi), ty: pt, safe }, s1)),
                Err(err) => Err(err),
            },
            Err(err) => Err(err),
        },
        ExprV::Case { branches, otherwise, ret, ret_nullable } => {
            match produce_whenthens(branches, schema, exts) {
                Ok((pbs, s1)) => match produce_opt_expr(otherwise, schema, s1) {
                    Ok((pot, s2)) => match enc_type(ret, ret_nullable) {
                        Ok(pt) => Ok(
                            (PExprV::IfThen { branches: pbs, otherwise: pot, ret: pt }, s2),
                        ),
                        Err(err) => Err(err),
                    },
                    Err(err) => Err(err),
                },
                Err(err) => Err(err),
            }
        },
    }
}

/// Production of a conditional's branch list: each branch's test, then its
/// result, left to right, threading the declaration list.
pub open spec fn produce_whenthens(
    s: Seq<WhenThenV>,
    schema: Seq<EFieldV>,
    exts: Seq<ExtKeyV>,
) -> Result<(Seq<PWhenThenV>, Seq<ExtKeyV>), TranslateError>
    decreases s, 1int,
{
    if s.len() == 0 {
        Ok((Seq::empty(), exts))
    } else {
        match produce_whenthens(s.drop_last(), schema, exts) {
            Ok((rest, mid)) => match produce_expr(s.last().when, schema, mid) {
                Ok((pw, m2)) => match produce_expr(s.last().value, schema, m2) {
                    Ok((pt, out)) => Ok((rest.push(PWhenThenV { when: pw, value: pt }), out)),
                    Err(err) => Err(err),
                },
                Err(err) => Err(err),
            },
            Err(err) => Err(err),
        }
    }
}

/// Production of a conditional's optional ELSE branch.
pub open spec fn produce_opt_expr(
    o: Option<Box<ExprV>>,
    schema: Seq<EFieldV>,
    exts: Seq<ExtKeyV>,
) -> Result<(Option<Box<PExprV>>, Seq<ExtKeyV>), TranslateError>
    decreases o, 1int,
{
    match o {
        Some(b) => match produce_expr(*b, schema, exts) {
            Ok((pe, s1)) => Ok((Some(Box::new(pe)), s1)),
            Err(err) => Err(err),
        },
        None => Ok((None, exts)),
    }
}

/// Production of an expression list, left to right, threading the
/// declaration list.
pub open spec fn produce_exprs(s: Seq<ExprV>, schema: Seq<EFieldV>, exts: Seq<ExtKeyV>) -> Result<
    (Seq<PExprV>, Seq<ExtKeyV>),
    TranslateError,
>
    decreases s, 1int,
{
    if s.len() == 0 {
        Ok((Seq::empty(), exts))
    } else {
        match produce_exprs(s.drop_last(), schema, exts) {
            Ok((rest, mid)) => match produce_expr(s.last(), schema, mid) {
                Ok((pe, out)) => Ok((rest.push(pe), out)),
                Err(err) => Err(err),
            },
            Err(err) => Err(err),
        }
    }
}

/// Consumption of one portable expression against the schema of its input,
/// resolving anchors through the declaration list.
pub open spec fn consume_expr(p: PExprV, schema: Seq<EFieldV>, decls: Seq<ExtKeyV>) -> Result<
    ExprV,
    TranslateError,
>
    decreases p, 0int,
{
    match p {
        PExprV::Field(i) => if 0 <= i < schema.len() {
            Ok(ExprV::Column { name: schema[i].name })
        } else {
            Err(TranslateError::MalformedPlan)
        },
        PExprV::Lit(l) => match dec_literal(l) {
            Ok(el) => Ok(ExprV::Literal(el)),
            Err(err) => Err(err),
        },
        PExprV::ScalarFn { anchor, args, ret } => if 0 <= anchor < decls.len() {
            match consume_exprs(args, schema, decls) {
                Ok(eargs) => match dec_type(ret) {
                    Ok((t, n)) => Ok(
                        ExprV::ScalarFn {
                            name: decls[anchor].name,
                            signature: decls[anchor].signature,
                            args: eargs,
                            ret: t,
                            ret_nullable: n,
                        },
                    ),
                    Err(err) => Err(err),
                },
                Err(err) => Err(err),
            }
        } else {
            Err(TranslateError::UnknownAnchor)
        },
        PExprV::WindowFn { anchor, args, frame, ret } => if 0 <= anchor < decls.len() {
            match consume_exprs(args, schema, decls) {
                Ok(eargs) => match dec_type(ret) {
                    Ok((t, n)) => Ok(
                        ExprV::WindowFn {
                            name: decls[anchor].name,
                            signature: decls[anchor].signature,
                            args: eargs,
                            frame,
                            ret: t,
                            ret_nullable: n,
                        },
                    ),
                    Err(err) => Err(err),
                },
                Err(err) => Err(err),
            }
        } else {
            Err(TranslateError::UnknownAnchor)
        },
        PExprV::Cast { input, ty, safe } => match consume_expr(*input, schema, decls) {
            Ok(ei) => match dec_type(ty) {
                Ok((t, n)) => Ok(ExprV::Cast { input: Box::new(ei), ty: t, nullable: n, safe }),
                Err(err) => Err(err),
            },
            Err(err) => Err(err),
        },
        PExprV::IfThen { branches, otherwise, ret } => {
            match consume_whenthens(branches, schema, decls) {
                Ok(ebs) => match consume_opt_expr(otherwise, schema, decls) {
                    Ok(eot) => match dec_type(ret) {
                        Ok((t, n)) => Ok(
                            ExprV::Case { branches: ebs, otherwise: eot, ret: t, ret_nullable: n },
                        ),
                        Err(err) => Err(err),
                    },
                    Err(err) => Err(err),
                },
                Err(err) => Err(err),
            }
        },
    }
}

/// Consumption of a portable conditional's branch list, left to right.
pub open spec fn consume_whenthens(
    s: Seq<PWhenThenV>,
    schema: Seq<EFieldV>,
    decls: Seq<ExtKeyV>,
) -> Result<Seq<WhenThenV>, TranslateError>
    decreases s, 1int,
{
    if s.len() == 0 {
        Ok(Seq::empty())
    } else {
        match consume_whenthens(s.drop_last(), schema, decls) {
            Ok(rest) => match consume_expr(s.last().when, schema, decls) {
                Ok(ew) => match consume_expr(s.last().value, schema, decls) {
                    Ok(et) => Ok(rest.push(WhenThenV { when: ew, value: et })),
                    Err(err) => Err(err),
                },
                Err(err) => Err(err),
            },
            Err(err) => Err(err),
        }
    }
}

/// Consumption of a portable conditional's optional ELSE branch.
pub open spec fn consume_opt_expr(
    o: Option<Box<PExprV>>,
    schema: Seq<EFieldV>,
    decls: Seq<ExtKeyV>,
) -> Result<Option<Box<ExprV>>, TranslateError>
    decreases o, 1int,
{
    match o {
        Some(b) => match consume_expr(*b, schema, decls) {
            Ok(e) => Ok(Some(Box::new(e))),
            Err(err) => Err(err),
        },
        None => Ok(None),
    }
}

/// Consumption of a portable expression list, left to right.
pub open spec fn consume_exprs(s: Seq<PExprV>, schema: Seq<EFieldV>, decls: Seq<ExtKeyV>) -> Result<
    Seq<ExprV>,
    TranslateError,
>
    decreases s, 1int,
{
    if s.len() == 0 {
        Ok(Seq::empty())
    } else {
        match consume_exprs(s.drop_last(), schema, decls) {
            Ok(rest) => match consume_expr(s.last(), schema, decls) {
                Ok(e) => Ok(rest.push(e)),
                Err(err) => Err(err),
            },
            Err(err) => Err(err),
        }
    }
}

// ---------------------------------------------------------------------------
// How production grows the declaration list.
// ---------------------------------------------------------------------------
/// Producing an expression only ever appends declarations: the list it
/// starts from stays a prefix of the list it ends with.
pub proof fn lemma_produce_expr_extends(e: ExprV, schema: Seq<EFieldV>, exts: Seq<ExtKeyV>)
    ensures
        produce_expr(e, schema, exts) matches Ok(r) ==> exts.is_prefix_of(r.1),
    decreases e, 0int,
{
    if produce_expr(e, schema, exts) is Ok {
        match e {
            ExprV::ScalarFn { name, signature, args, .. } => {
                let (s1, _a) = register_spec(exts, ExtKeyV { name, signature });
                lemma_register_extends(exts, ExtKeyV { name, signature });
                lemma_produce_exprs_extends(args, schema, s1);
                let s2 = produce_exprs(args, schema, s1)->Ok_0.1;
                lemma_prefix_trans(exts, s1, s2);
            },
            ExprV::WindowFn { name, signature, args, .. } => {
                let (s1, _a) = register_spec(exts, ExtKeyV { name, signature });
                lemma_register_extends(exts, ExtKeyV { name, signature });
                lemma_produce_exprs_extends(args, schema, s1);
                let s2 = produce_exprs(args, schema, s1)->Ok_0.1;
                lemma_prefix_trans(exts, s1, s2);
            },
            ExprV::Cast { input, .. } => {
                lemma_produce_expr_extends(*input, schema, exts);
            },
            ExprV::Case { branches, otherwise, .. } => {
                lemma_produce_whenthens_extends(branches, schema, exts);
                let s1 = produce_whenthens(branches, schema, exts)->Ok_0.1;
                lemma_produce_opt_extends(otherwise, schema, s1);
                let s2 = produce_opt_expr(otherwise, schema, s1)->Ok_0.1;
                lemma_prefix_trans(exts, s1, s2);
            },
            _ => {
                assert(exts.is_prefix_of(exts));
            },
        }
    }
}

/// Producing an expression list only ever appends declarations.
pub proof fn lemma_produce_exprs_extends(s: Seq<ExprV>, schema: Seq<EFieldV>, exts: Seq<ExtKeyV>)
    ensures
        produce_exprs(s, schema, exts) matches Ok(r) ==> exts.is_prefix_of(r.1),
    decreases s, 1int,
{
    if produce_exprs(s, schema, exts) is Ok {
        if s.len() == 0 {
            assert(exts.is_prefix_of(exts));
        } else {
            lemma_produce_exprs_extends(s.drop_last(), schema, exts);
            let mid = produce_exprs(s.drop_last(), schema, exts)->Ok_0.1;
            lemma_produce_expr_extends(s.last(), schema, mid);
            let out = produce_expr(s.last(), schema, mid)->Ok_0.1;
            lemma_prefix_trans(exts, mid, out);
        }
    }
}

/// Producing a conditional's branches only ever appends declarations.
pub proof fn lemma_produce_whenthens_extends(
    s: Seq<WhenThenV>,
    schema: Seq<EFieldV>,
    exts: Seq<ExtKeyV>,
)
    ensures
        produce_whenthens(s, schema, exts) matches Ok(r) ==> exts.is_prefix_of(r.1),
    decreases s, 1int,
{
    if produce_whenthens(s, schema, exts) is Ok {
        if s.len() == 0 {
            assert(exts.is_prefix_of(exts));
        } else {
            lemma_produce_whenthens_extends(s.drop_last(), schema, exts);
            let mid = produce_whenthens(s.drop_last(), schema, exts)->Ok_0.1;
            lemma_produce_expr_extends(s.last().when, schema, mid);
            let m2 = produce_expr(s.last().when, schema, mid)->Ok_0.1;
            lemma_produce_expr_extends(s.last().value, schema, m2);
            let out = produce_expr(s.last().value, schema, m2)->Ok_0.1;
            lemma_prefix_trans(exts, mid, m2);
            lemma_prefix_trans(exts, m2, out);
        }
    }
}

/// Producing an optional ELSE branch only ever appends declarations.
pub proof fn lemma_produce_opt_extends(
    o: Option<Box<ExprV>>,
    schema: Seq<EFieldV>,
    exts: Seq<ExtKeyV>,
)
    ensures
        produce_opt_expr(o, schema, exts) matches Ok(r) ==> exts.is_prefix_of(r.1),
    decreases o, 1int,
{
    match o {
        Some(b) => {
            lemma_produce_expr_extends(*b, schema, exts);
        },
        None => {
            assert(exts.is_prefix_of(exts));
        },
    }
}

/// Prefix-of is transitive.
pub proof fn lemma_prefix_trans(a: Seq<ExtKeyV>, b: Seq<ExtKeyV>, c: Seq<ExtKeyV>)
    requires
        a.is_prefix_of(b),
        b.is_prefix_of(c),
    ensures
        a.is_prefix_of(c),
{
    assert(c.subrange(0, a.len() as int) =~= b.subrange(0, a.len() as int));
}

/// A prefix agrees with the longer list on every position it covers.
pub proof fn lemma_prefix_index(a: Seq<ExtKeyV>, b: Seq<ExtKeyV>)
    requires
        a.is_prefix_of(b),
    ensures
        forall|i: int| 0 <= i < a.len() ==> a[i] == b[i],
{
    assert(forall|i: int| 0 <= i < a.len() ==> a[i] == b.subrange(0, a.len() as int)[i]);
}

// ---------------------------------------------------------------------------
// Literal exactness: where the string-cast fallback does not fire.
// ---------------------------------------------------------------------------
/// Whether a literal encodes without the string-cast fallback.
pub open spec fn lit_exact(l: ELitV) -> bool {
    enc_literal(l) matches Ok(r) && !r.1
}

/// Whether every literal in an expression encodes exactly (no string-cast
/// fallback), so that consumption can reproduce the expression verbatim.
pub open spec fn expr_exact(e: ExprV) -> bool
    decreases e, 0int,
{
    match e {
        ExprV::Column { .. } => true,
        ExprV::Literal(l) => lit_exact(l),
        ExprV::ScalarFn { args, .. } => exprs_exact(args),
        ExprV::WindowFn { args, .. } => exprs_exact(args),
        ExprV::Cast { input, .. } => expr_exact(*input),
        ExprV::Case { branches, otherwise, .. } => whenthens_exact(branches) && opt_exact(
            otherwise,
        ),
    }
}

/// [`expr_exact`], over a conditional's branch list.
pub open spec fn whenthens_exact(s: Seq<WhenThenV>) -> bool
    decreases s, 1int,
{
    if s.len() == 0 {
        true
    } else {
        whenthens_exact(s.drop_last()) && expr_exact(s.last().when) && expr_exact(s.last().value)
    }
}

/// [`expr_exact`], over an optional ELSE branch.
pub open spec fn opt_exact(o: Option<Box<ExprV>>) -> bool
    decreases o, 1int,
{
    match o {
        Some(b) => expr_exact(*b),
        None => true,
    }
}

/// [`expr_exact`], over an expression list.
pub open spec fn exprs_exact(s: Seq<ExprV>) -> bool
    decreases s, 1int,
{
    if s.len() == 0 {
        true
    } else {
        exprs_exact(s.drop_last()) && expr_exact(s.last())
    }
}

// ---------------------------------------------------------------------------
// The expression round trip.
// ---------------------------------------------------------------------------
/// An expression produced against a schema and consumed back against the
/// same schema and any declaration list that extends the one production
/// ended with is reproduced exactly, provided no literal fell back to its
/// string-cast form.
pub proof fn lemma_expr_roundtrip(
    e: ExprV,
    schema: Seq<EFieldV>,
    exts: Seq<ExtKeyV>,
    decls: Seq<ExtKeyV>,
)
    requires
        expr_exact(e),
        produce_expr(e, schema, exts) is Ok,
        produce_expr(e, schema, exts)->Ok_0.1.is_prefix_of(decls),
    ensures
        consume_expr(produce_expr(e, schema, exts)->Ok_0.0, schema, decls) == Ok::<
            _,
            TranslateError,
        >(e),
    decreases e, 0int,
{
    match e {
        ExprV::Column { name } => {
            lemma_name_index(schema, name);
            assert(e =~= ExprV::Column { name });
        },
        ExprV::Literal(l) => {
            crate::literal::lemma_literal_roundtrip(l);
        },
        ExprV::ScalarFn { name, signature, args, ret, ret_nullable } => {
            let key = ExtKeyV { name, signature };
            let (s1, a) = register_spec(exts, key);
            lemma_register_extends(exts, key);
            lemma_produce_exprs_extends(args, schema, s1);
            let r = produce_exprs(args, schema, s1)->Ok_0;
            let pargs = r.0;
            let s2 = r.1;
            lemma_prefix_trans(s1, s2, decls);
            lemma_prefix_index(s1, decls);
            assert(0 <= a < decls.len() && decls[a] == key);
            lemma_exprs_roundtrip(args, schema, s1, decls);
            crate::codec::lemma_type_roundtrip(ret, ret_nullable);
            assert(e =~= ExprV::ScalarFn { name, signature, args, ret, ret_nullable });
        },
        ExprV::WindowFn { name, signature, args, frame, ret, ret_nullable } => {
            let key = ExtKeyV { name, signature };
            let (s1, a) = register_spec(exts, key);
            lemma_register_extends(exts, key);
            lemma_produce_exprs_extends(args, schema, s1);
            let r = produce_exprs(args, schema, s1)->Ok_0;
            let s2 = r.1;
            lemma_prefix_trans(s1, s2, decls);
            lemma_prefix_index(s1, decls);
            assert(0 <= a < decls.len() && decls[a] == key);
            lemma_exprs_roundtrip(args, schema, s1, decls);
            crate::codec::lemma_type_roundtrip(ret, ret_nullable);
            assert(e =~= ExprV::WindowFn { name, signature, args, frame, ret, ret_nullable });
        },
        ExprV::Cast { input, ty, nullable, safe } => {
            lemma_expr_roundtrip(*input, schema, exts, decls);
            crate::codec::lemma_type_roundtrip(ty, nullable);
            assert(e =~= ExprV::Cast { input, ty, nullable, safe });
        },
        ExprV::Case { branches, otherwise, ret, ret_nullable } => {
            lemma_produce_whenthens_extends(branches, schema, exts);
            let s1 = produce_whenthens(branches, schema, exts)->Ok_0.1;
            lemma_produce_opt_extends(otherwise, schema, s1);
            let s2 = produce_opt_expr(otherwise, schema, s1)->Ok_0.1;
            lemma_prefix_trans(s1, s2, decls);
            lemma_whenthens_roundtrip(branches, schema, exts, decls);
            lemma_opt_roundtrip(otherwise, schema, s1, decls);
            crate::codec::lemma_type_roundtrip(ret, ret_nullable);
            assert(e =~= ExprV::Case { branches, otherwise, ret, ret_nullable });
        },
    }
}

/// The round trip of a conditional's branch list, elementwise and in order.
pub proof fn lemma_whenthens_roundtrip(
    s: Seq<WhenThenV>,
    schema: Seq<EFieldV>,
    exts: Seq<ExtKeyV>,
    decls: Seq<ExtKeyV>,
)
    requires
        whenthens_exact(s),
        produce_whenthens(s, schema, exts) is Ok,
        produce_whenthens(s, schema, exts)->Ok_0.1.is_prefix_of(decls),
    ensures
        consume_whenthens(produce_whenthens(s, schema, exts)->Ok_0.0, schema, decls) == Ok::<
            _,
            TranslateError,
        >(s),
    decreases s, 1int,
{
    let r = produce_whenthens(s, schema, exts)->Ok_0;
    if s.len() == 0 {
        assert(r.0.len() == 0);
        assert(consume_whenthens(r.0, schema, decls)->Ok_0 =~= s);
    } else {
        let mid_r = produce_whenthens(s.drop_last(), schema, exts)->Ok_0;
        let rest = mid_r.0;
        let mid = mid_r.1;
        let pw_r = produce_expr(s.last().when, schema, mid)->Ok_0;
        let m2 = pw_r.1;
        let pt_r = produce_expr(s.last().value, schema, m2)->Ok_0;
        lemma_produce_expr_extends(s.last().when, schema, mid);
        lemma_produce_expr_extends(s.last().value, schema, m2);
        lemma_prefix_trans(m2, r.1, decls);
        lemma_prefix_trans(mid, m2, decls);
        lemma_whenthens_roundtrip(s.drop_last(), schema, exts, decls);
        lemma_expr_roundtrip(s.last().when, schema, mid, decls);
        lemma_expr_roundtrip(s.last().value, schema, m2, decls);
        assert(r.0.drop_last() =~= rest);
        assert(r.0.last() == (PWhenThenV { when: pw_r.0, value: pt_r.0 }));
        assert(s.last() =~= (WhenThenV { when: s.last().when, value: s.last().value }));
        assert(consume_whenthens(r.0, schema, decls)->Ok_0 =~= s);
    }
}

/// The round trip of a conditional's optional ELSE branch.
pub proof fn lemma_opt_roundtrip(
    o: Option<Box<ExprV>>,
    schema: Seq<EFieldV>,
    exts: Seq<ExtKeyV>,
    decls: Seq<ExtKeyV>,
)
    requires
        opt_exact(o),
        produce_opt_expr(o, schema, exts) is Ok,
        produce_opt_expr(o, schema, exts)->Ok_0.1.is_prefix_of(decls),
    ensures
        consume_opt_expr(produce_opt_expr(o, schema, exts)->Ok_0.0, schema, decls) == Ok::<
            _,
            TranslateError,
        >(o),
    decreases o, 1int,
{
    match o {
        Some(b) => {
            lemma_expr_roundtrip(*b, schema, exts, decls);
        },
        None => {},
    }
}

/// The round trip of an expression list, elementwise and in order.
pub proof fn lemma_exprs_roundtrip(
    s: Seq<ExprV>,
    schema: Seq<EFieldV>,
    exts: Seq<ExtKeyV>,
    decls: Seq<ExtKeyV>,
)
    requires
        exprs_exact(s),
        produce_exprs(s, schema, exts) is Ok,
        produce_exprs(s, schema, exts)->Ok_0.1.is_prefix_of(decls),
    ensures
        consume_exprs(produce_exprs(s, schema, exts)->Ok_0.0, schema, decls) == Ok::<
            _,
            TranslateError,
        >(s),
    decreases s, 1int,
{
    let r = produce_exprs(s, schema, exts)->Ok_0;
    if s.len() == 0 {
        assert(r.0.len() == 0);
        assert(consume_exprs(r.0, schema, decls)->Ok_0 =~= s);
    } else {
        let mid_r = produce_exprs(s.drop_last(), schema, exts)->Ok_0;
        let rest = mid_r.0;
        let mid = mid_r.1;
        let last_r = produce_expr(s.last(), schema, mid)->Ok_0;
        lemma_produce_expr_extends(s.last(), schema, mid);
        lemma_prefix_trans(mid, r.1, decls);
        lemma_exprs_roundtrip(s.drop_last(), schema, exts, decls);
        lemma_expr_roundtrip(s.last(), schema, mid, decls);
        assert(r.0.drop_last() =~= rest);
        assert(r.0.last() == last_r.0);
        assert(consume_exprs(r.0, schema, decls)->Ok_0 =~= s);
    }
}

// ---------------------------------------------------------------------------
// Prefix lemmas used by the executable loops.
// ---------------------------------------------------------------------------
/// One unfolding step of [`produce_exprs`] over a growing prefix.
proof fn lemma_produce_exprs_unfold_prefix(
    s: Seq<ExprV>,
    schema: Seq<EFieldV>,
    exts: Seq<ExtKeyV>,
    i: int,
)
    requires
        0 <= i < s.len(),
    ensures
        produce_exprs(s.subrange(0, i + 1), schema, exts) == (match produce_exprs(
            s.subrange(0, i),
            schema,
            exts,
        ) {
            Ok((rest, mid)) => match produce_expr(s[i], schema, mid) {
                Ok((pe, out)) => Ok::<_, TranslateError>((rest.push(pe), out)),
                Err(err) => Err(err),
            },
            Err(err) => Err(err),
        }),
{
    let pre = s.subrange(0, i + 1);
    assert(pre.drop_last() =~= s.subrange(0, i));
    assert(pre.last() == s[i]);
}

/// Once a prefix fails to produce, the whole list fails the same way.
proof fn lemma_produce_exprs_err_extends(
    s: Seq<ExprV>,
    schema: Seq<EFieldV>,
    exts: Seq<ExtKeyV>,
    i: int,
)
    requires
        0 <= i <= s.len(),
        produce_exprs(s.subrange(0, i), schema, exts) is Err,
    ensures
        produce_exprs(s, schema, exts) == produce_exprs(s.subrange(0, i), schema, exts),
    decreases s.len(),
{
    if i == s.len() {
        assert(s.subrange(0, i) =~= s);
    } else {
        assert(s.drop_last().subrange(0, i) =~= s.subrange(0, i));
        lemma_produce_exprs_err_extends(s.drop_last(), schema, exts, i);
    }
}

/// One unfolding step of [`consume_exprs`] over a growing prefix.
proof fn lemma_consume_exprs_unfold_prefix(
    s: Seq<PExprV>,
    schema: Seq<EFieldV>,
    decls: Seq<ExtKeyV>,
    i: int,
)
    requires
        0 <= i < s.len(),
    ensures
        consume_exprs(s.subrange(0, i + 1), schema, decls) == (match consume_exprs(
            s.subrange(0, i),
            schema,
            decls,
        ) {
            Ok(rest) => match consume_expr(s[i], schema, decls) {
                Ok(e) => Ok::<_, TranslateError>(rest.push(e)),
                Err(err) => Err(err),
            },
            Err(err) => Err(err),
        }),
{
    let pre = s.subrange(0, i + 1);
    assert(pre.drop_last() =~= s.subrange(0, i));
    assert(pre.last() == s[i]);
}

/// Once a prefix fails to consume, the whole list fails the same way.
proof fn lemma_consume_exprs_err_extends(
    s: Seq<PExprV>,
    schema: Seq<EFieldV>,
    decls: Seq<ExtKeyV>,
    i: int,
)
    requires
        0 <= i <= s.len(),
        consume_exprs(s.subrange(0, i), schema, decls) is Err,
    ensures
        consume_exprs(s, schema, decls) == consume_exprs(s.subrange(0, i), schema, decls),
    decreases s.len(),
{
    if i == s.len() {
        assert(s.subrange(0, i) =~= s);
    } else {
        assert(s.drop_last().subrange(0, i) =~= s.subrange(0, i));
        lemma_consume_exprs_err_extends(s.drop_last(), schema, decls, i);
    }
}

// ---------------------------------------------------------------------------
// Executable expression translation.
// ---------------------------------------------------------------------------
/// Finds a column by name: its first position, or `None` when the schema has
/// no such column.
pub(crate) fn find_col(schema: &Vec<EField>, name: &String) -> (r: Option<usize>)
    ensures
        (match r {
            Some(i) => has_col(efields_view(schema@), name@) && i as int == name_index(
                efields_view(schema@),
                name@,
            ) && i < schema@.len(),
            None => !has_col(efields_view(schema@), name@),
        }),
{
    let ghost sv = efields_view(schema@);
    proof {
        lemma_efields_view_index(schema@);
    }
    let mut i: usize = 0;
    while i < schema.len()
        invariant
            i <= schema.len(),
            sv == efields_view(schema@),
            sv.len() == schema@.len(),
            forall|j: int| 0 <= j < schema@.len() ==> sv[j] == efield_view(schema@[j]),
            forall|j: int| 0 <= j < i ==> sv[j].name != name@,
        decreases schema.len() - i,
    {
        if schema[i].name == *name {
            proof {
                assert(sv[i as int].name == name@);
                lemma_name_index(sv, name@);
            }
            return Some(i);
        }
        i = i + 1;
    }
    proof {
        assert(!has_col(sv, name@));
    }
    None
}

/// Translates one engine expression into its portable form, resolving
/// column names to positions against `schema` and registering every
/// function reference in `reg`, exactly as [`produce_expr`] specifies.
pub fn to_portable_expr(e: &Expr, schema: &Vec<EField>, reg: &mut Registry) -> (r: Result<
    PExpr,
    TranslateError,
>)
    ensures
        old(reg)@.is_prefix_of(final(reg)@),
        (match r {
            Ok(pe) => produce_expr(e@, efields_view(schema@), old(reg)@) == Ok::<
                _,
                TranslateError,
            >((pe@, final(reg)@)),
            Err(err) => produce_expr(e@, efields_view(schema@), old(reg)@) == Err::<
                (PExprV, Seq<ExtKeyV>),
                _,
            >(err),
        }),
    decreases *e,
{
    let ghost sv = efields_view(schema@);
    match e {
        Expr::Column { name } => {
            match find_col(schema, name) {
                Some(i) => {
                    proof {
                        assert(old(reg)@.is_prefix_of(reg@));
                    }
                    Ok(PExpr::Field(i as u64))
                },
                None => Err(TranslateError::MalformedPlan),
            }
        },
        Expr::Literal(l) => {
            match encode_literal(l) {
                Ok((pl, _lossy)) => Ok(PExpr::Lit(pl)),
                Err(err) => Err(err),
            }
        },
        Expr::ScalarFn { name, signature, args, ret, ret_nullable } => {
            let anchor = reg.register(name, signature);
            let ghost s1 = reg@;
            let ghost key = ExtKeyV { name: name@, signature: signature@ };
            proof {
                lemma_register_extends(old(reg)@, key);
            }
            match translate_args(args, schema, reg) {
                Ok(pargs) => {
                    match encode_type(ret, *ret_nullable) {
                        Ok(pt) => {
                            let pe = PExpr::ScalarFn { anchor: anchor as u64, args: pargs, ret: pt };
                            proof {
                                lemma_prefix_trans(old(reg)@, s1, reg@);
                            }
                            Ok(pe)
                        },
                        Err(err) => {
                            proof {
                                lemma_prefix_trans(old(reg)@, s1, reg@);
                            }
                            Err(err)
                        },
                    }
                },
                Err(err) => {
                    proof {
                        lemma_prefix_trans(old(reg)@, s1, reg@);
                    }
                    Err(err)
                },
            }
        },
        Expr::WindowFn { name, signature, args, frame, ret, ret_nullable } => {
            let anchor = reg.register(name, signature);
            let ghost s1 = reg@;
            let ghost key = ExtKeyV { name: name@, signature: signature@ };
            proof {
                lemma_register_extends(old(reg)@, key);
            }
            match translate_args(args, schema, reg) {
                Ok(pargs) => {
                    match encode_type(ret, *ret_nullable) {
                        Ok(pt) => {
                            let pe = PExpr::WindowFn {
                                anchor: anchor as u64,
                                args: pargs,
                                frame: *frame,
                                ret: pt,
                            };
                            proof {
                                lemma_prefix_trans(old(reg)@, s1, reg@);
                            }
                            Ok(pe)
                        },
                        Err(err) => {
                            proof {
                                lemma_prefix_trans(old(reg)@, s1, reg@);
                            }
                            Err(err)
                        },
                    }
                },
                Err(err) => {
                    proof {
                        lemma_prefix_trans(old(reg)@, s1, reg@);
                    }
                    Err(err)
                },
            }
        },
        Expr::Cast { input, ty, nullable, safe } => {
            match to_portable_expr(input, schema, reg) {
                Ok(pi) => {
                    match encode_type(ty, *nullable) {
                        Ok(pt) => Ok(PExpr::Cast { input: Box::new(pi), ty: pt, safe: *safe }),
                        Err(err) => Err(err),
                    }
                },
                Err(err) => Err(err),
            }
        },
        Expr::Case { branches, otherwise, ret, ret_nullable } => {
            match translate_whenthens(branches, schema, reg) {
                Ok(pbs) => {
                    let ghost s1 = reg@;
                    match translate_opt(otherwise, schema, reg) {
                        Ok(pot) => {
                            match encode_type(ret, *ret_nullable) {
                                Ok(pt) => {
                                    proof {
                                        lemma_prefix_trans(old(reg)@, s1, reg@);
                                    }
                                    Ok(
                                        PExpr::IfThen {
                                            branches: pbs,
                                            otherwise: pot,
                                            ret: pt,
                                        },
                                    )
                                },
                                Err(err) => {
                                    proof {
                                        lemma_prefix_trans(old(reg)@, s1, reg@);
                                    }
                                    Err(err)
                                },
                            }
                        },
                        Err(err) => {
                            proof {
                                lemma_prefix_trans(old(reg)@, s1, reg@);
                            }
                            Err(err)
                        },
                    }
                },
                Err(err) => Err(err),
            }
        },
    }
}

/// One unfolding step of [`produce_whenthens`] over a growing prefix.
proof fn lemma_produce_whenthens_unfold_prefix(
    s: Seq<WhenThenV>,
    schema: Seq<EFieldV>,
    exts: Seq<ExtKeyV>,
    i: int,
)
    requires
        0 <= i < s.len(),
    ensures
        produce_whenthens(s.subrange(0, i + 1), schema, exts) == (match produce_whenthens(
            s.subrange(0, i),
            schema,
            exts,
        ) {
            Ok((rest, mid)) => match produce_expr(s[i].when, schema, mid) {
                Ok((pw, m2)) => match produce_expr(s[i].value, schema, m2) {
                    Ok((pt, out)) => Ok::<_, TranslateError>(
                        (rest.push(PWhenThenV { when: pw, value: pt }), out),
                    ),
                    Err(err) => Err(err),
                },
                Err(err) => Err(err),
            },
            Err(err) => Err(err),
        }),
{
    let pre = s.subrange(0, i + 1);
    assert(pre.drop_last() =~= s.subrange(0, i));
    assert(pre.last() == s[i]);
}

/// Once a prefix of branches fails to produce, the whole list fails the
/// same way.
proof fn lemma_produce_whenthens_err_extends(
    s: Seq<WhenThenV>,
    schema: Seq<EFieldV>,
    exts: Seq<ExtKeyV>,
    i: int,
)
    requires
        0 <= i <= s.len(),
        produce_whenthens(s.subrange(0, i), schema, exts) is Err,
    ensures
        produce_whenthens(s, schema, exts) == produce_whenthens(s.subrange(0, i), schema, exts),
    decreases s.len(),
{
    if i == s.len() {
        assert(s.subrange(0, i) =~= s);
    } else {
        assert(s.drop_last().subrange(0, i) =~= s.subrange(0, i));
        lemma_produce_whenthens_err_extends(s.drop_last(), schema, exts, i);
    }
}

/// Translates a conditional's branch list left to right, threading the
/// registry.
#[verifier::loop_isolation(false)]
fn translate_whenthens(branches: &Vec<WhenThen>, schema: &Vec<EField>, reg: &mut Registry) -> (r:
    Result<Vec<PWhenThen>, TranslateError>)
    ensures
        old(reg)@.is_prefix_of(final(reg)@),
        (match r {
            Ok(ps) => produce_whenthens(
                whenthens_view(branches@),
                efields_view(schema@),
                old(reg)@,
            ) == Ok::<_, TranslateError>((pwhenthens_view(ps@), final(reg)@)),
            Err(err) => produce_whenthens(
                whenthens_view(branches@),
                efields_view(schema@),
                old(reg)@,
            ) == Err::<(Seq<PWhenThenV>, Seq<ExtKeyV>), _>(err),
        }),
    decreases branches,
{
    let ghost bv = whenthens_view(branches@);
    let ghost sv = efields_view(schema@);
    let ghost pre = reg@;
    proof {
        lemma_whenthens_view_index(branches@);
        assert(bv.subrange(0, 0) =~= Seq::<WhenThenV>::empty());
        assert(pre.subrange(0, pre.len() as int) =~= pre);
    }
    let mut out: Vec<PWhenThen> = Vec::new();
    let mut i: usize = 0;
    while i < branches.len()
        invariant
            i <= branches.len(),
            bv == whenthens_view(branches@),
            sv == efields_view(schema@),
            bv.len() == branches@.len(),
            forall|j: int| 0 <= j < branches@.len() ==> bv[j] == whenthen_view(branches@[j]),
            pre.is_prefix_of(reg@),
            produce_whenthens(bv.subrange(0, i as int), sv, pre) == Ok::<_, TranslateError>(
                (pwhenthens_view(out@), reg@),
            ),
        decreases branches.len() - i,
    {
        let ghost out_pre = out@;
        let ghost reg_mid = reg@;
        let b = &branches[i];
        match to_portable_expr(&b.when, schema, reg) {
            Ok(pw) => {
                let ghost reg_m2 = reg@;
                match to_portable_expr(&b.value, schema, reg) {
                    Ok(pt) => {
                        out.push(PWhenThen { when: pw, value: pt });
                        proof {
                            lemma_produce_whenthens_unfold_prefix(bv, sv, pre, i as int);
                            assert(out@.drop_last() =~= out_pre);
                            assert(pwhenthens_view(out@) =~= pwhenthens_view(out_pre).push(
                                pwhenthen_view(out@.last()),
                            ));
                            lemma_prefix_trans(pre, reg_mid, reg_m2);
                            lemma_prefix_trans(pre, reg_m2, reg@);
                        }
                    },
                    Err(err) => {
                        proof {
                            lemma_produce_whenthens_unfold_prefix(bv, sv, pre, i as int);
                            lemma_produce_whenthens_err_extends(bv, sv, pre, i as int + 1);
                            lemma_prefix_trans(pre, reg_mid, reg_m2);
                            lemma_prefix_trans(pre, reg_m2, reg@);
                        }
                        return Err(err);
                    },
                }
            },
            Err(err) => {
                proof {
                    lemma_produce_whenthens_unfold_prefix(bv, sv, pre, i as int);
                    lemma_produce_whenthens_err_extends(bv, sv, pre, i as int + 1);
                    lemma_prefix_trans(pre, reg_mid, reg@);
                }
                return Err(err);
            },
        }
        i = i + 1;
    }
    proof {
        assert(bv.subrange(0, branches@.len() as int) =~= bv);
    }
    Ok(out)
}

/// Translates a conditional's optional ELSE branch.
fn translate_opt(o: &Option<Box<Expr>>, schema: &Vec<EField>, reg: &mut Registry) -> (r: Result<
    Option<Box<PExpr>>,
    TranslateError,
>)
    ensures
        old(reg)@.is_prefix_of(final(reg)@),
        (match r {
            Ok(po) => produce_opt_expr(
                crate::expr::opt_expr_view(*o),
                efields_view(schema@),
                old(reg)@,
            ) == Ok::<_, TranslateError>((crate::expr::popt_expr_view(po), final(reg)@)),
            Err(err) => produce_opt_expr(
                crate::expr::opt_expr_view(*o),
                efields_view(schema@),
                old(reg)@,
            ) == Err::<(Option<Box<PExprV>>, Seq<ExtKeyV>), _>(err),
        }),
    decreases o,
{
    proof {
        assert(old(reg)@.subrange(0, old(reg)@.len() as int) =~= old(reg)@);
    }
    match o {
        Some(b) => {
            match to_portable_expr(b, schema, reg) {
                Ok(pe) => Ok(Some(Box::new(pe))),
                Err(err) => Err(err),
            }
        },
        None => Ok(None),
    }
}

/// Translates an argument list left to right, threading the registry.
#[verifier::loop_isolation(false)]
pub(crate) fn translate_args(args: &Vec<Expr>, schema: &Vec<EField>, reg: &mut Registry) -> (r: Result<
    Vec<PExpr>,
    TranslateError,
>)
    ensures
        old(reg)@.is_prefix_of(final(reg)@),
        (match r {
            Ok(ps) => produce_exprs(exprs_view(args@), efields_view(schema@), old(reg)@) == Ok::<
                _,
                TranslateError,
            >((pexprs_view(ps@), final(reg)@)),
            Err(err) => produce_exprs(exprs_view(args@), efields_view(schema@), old(reg)@)
                == Err::<(Seq<PExprV>, Seq<ExtKeyV>), _>(err),
        }),
    decreases args,
{
    let ghost av = exprs_view(args@);
    let ghost sv = efields_view(schema@);
    let ghost pre = reg@;
    proof {
        lemma_exprs_view_index(args@);
        assert(av.subrange(0, 0) =~= Seq::<ExprV>::empty());
    }
    let mut out: Vec<PExpr> = Vec::new();
    let mut i: usize = 0;
    while i < args.len()
        invariant
            i <= args.len(),
            av == exprs_view(args@),
            sv == efields_view(schema@),
            av.len() == args@.len(),
            forall|j: int| 0 <= j < args@.len() ==> av[j] == expr_view(args@[j]),
            pre.is_prefix_of(reg@),
            produce_exprs(av.subrange(0, i as int), sv, pre) == Ok::<_, TranslateError>(
                (pexprs_view(out@), reg@),
            ),
        decreases args.len() - i,
    {
        let ghost out_pre = out@;
        let ghost reg_mid = reg@;
        match to_portable_expr(&args[i], schema, reg) {
            Ok(pe) => {
                out.push(pe);
                proof {
                    lemma_produce_exprs_unfold_prefix(av, sv, pre, i as int);
                    assert(out@.drop_last() =~= out_pre);
                    assert(pexprs_view(out@) =~= pexprs_view(out_pre).push(pexpr_view(
                        out@.last(),
                    )));
                    lemma_prefix_trans(pre, reg_mid, reg@);
                }
            },
            Err(err) => {
                proof {
                    lemma_produce_exprs_unfold_prefix(av, sv, pre, i as int);
                    lemma_produce_exprs_err_extends(av, sv, pre, i as int + 1);
                    lemma_prefix_trans(pre, reg_mid, reg@);
                }
                return Err(err);
            },
        }
        i = i + 1;
    }
    proof {
        assert(av.subrange(0, args@.len() as int) =~= av);
    }
    Ok(out)
}

/// Rebuilds one engine expression from its portable form, turning positions
/// back into column names against `schema` and resolving anchors through the
/// declaration list, exactly as [`consume_expr`] specifies.
pub fn from_portable_expr(p: &PExpr, schema: &Vec<EField>, decls: &Vec<ExtensionDecl>) -> (r:
    Result<Expr, TranslateError>)
    ensures
        (match r {
            Ok(e) => consume_expr(p@, efields_view(schema@), decls_view(decls@)) == Ok::<
                _,
                TranslateError,
            >(e@),
            Err(err) => consume_expr(p@, efields_view(schema@), decls_view(decls@)) == Err::<
                ExprV,
                _,
            >(err),
        }),
    decreases *p,
{
    let ghost sv = efields_view(schema@);
    let ghost dv = decls_view(decls@);
    proof {
        lemma_efields_view_index(schema@);
    }
    match p {
        PExpr::Field(i) => {
            if *i < schema.len() as u64 {
                let idx = *i as usize;
                let name = schema[idx].name.clone();
                Ok(Expr::Column { name })
            } else {
                Err(TranslateError::MalformedPlan)
            }
        },
        PExpr::Lit(l) => {
            match decode_literal(l) {
                Ok(el) => Ok(Expr::Literal(el)),
                Err(err) => Err(err),
            }
        },
        PExpr::ScalarFn { anchor, args, ret } => {
            if *anchor < decls.len() as u64 {
                let d = &decls[*anchor as usize];
                match reconstruct_args(args, schema, decls) {
                    Ok(eargs) => {
                        match decode_type(ret) {
                            Ok((t, n)) => Ok(
                                Expr::ScalarFn {
                                    name: d.name.clone(),
                                    signature: d.signature.clone(),
                                    args: eargs,
                                    ret: t,
                                    ret_nullable: n,
                                },
                            ),
                            Err(err) => Err(err),
                        }
                    },
                    Err(err) => Err(err),
                }
            } else {
                Err(TranslateError::UnknownAnchor)
            }
        },
        PExpr::WindowFn { anchor, args, frame, ret } => {
            if *anchor < decls.len() as u64 {
                let d = &decls[*anchor as usize];
                match reconstruct_args(args, schema, decls) {
                    Ok(eargs) => {
                        match decode_type(ret) {
                            Ok((t, n)) => Ok(
                                Expr::WindowFn {
                                    name: d.name.clone(),
                                    signature: d.signature.clone(),
                                    args: eargs,
                                    frame: *frame,
                                    ret: t,
                                    ret_nullable: n,
                                },
                            ),
                            Err(err) => Err(err),
                        }
                    },
                    Err(err) => Err(err),
                }
            } else {
                Err(TranslateError::UnknownAnchor)
            }
        },
        PExpr::Cast { input, ty, safe } => {
            match from_portable_expr(input, schema, decls) {
                Ok(ei) => {
                    match decode_type(ty) {
                        Ok((t, n)) => Ok(
                            Expr::Cast { input: Box::new(ei), ty: t, nullable: n, safe: *safe },
                        ),
                        Err(err) => Err(err),
                    }
                },
                Err(err) => Err(err),
            }
        },
        PExpr::IfThen { branches, otherwise, ret } => {
            match reconstruct_whenthens(branches, schema, decls) {
                Ok(ebs) => {
                    match reconstruct_opt(otherwise, schema, decls) {
                        Ok(eot) => {
                            match decode_type(ret) {
                                Ok((t, n)) => Ok(
                                    Expr::Case {
                                        branches: ebs,
                                        otherwise: eot,
                                        ret: t,
                                        ret_nullable: n,
                                    },
                                ),
                                Err(err) => Err(err),
                            }
                        },
                        Err(err) => Err(err),
                    }
                },
                Err(err) => Err(err),
            }
        },
    }
}

/// One unfolding step of [`consume_whenthens`] over a growing prefix.
proof fn lemma_consume_whenthens_unfold_prefix(
    s: Seq<PWhenThenV>,
    schema: Seq<EFieldV>,
    decls: Seq<ExtKeyV>,
    i: int,
)
    requires
        0 <= i < s.len(),
    ensures
        consume_whenthens(s.subrange(0, i + 1), schema, decls) == (match consume_whenthens(
            s.subrange(0, i),
            schema,
            decls,
        ) {
            Ok(rest) => match consume_expr(s[i].when, schema, decls) {
                Ok(ew) => match consume_expr(s[i].value, schema, decls) {
                    Ok(et) => Ok::<_, TranslateError>(rest.push(WhenThenV { when: ew, value: et })),
                    Err(err) => Err(err),
                },
                Err(err) => Err(err),
            },
            Err(err) => Err(err),
        }),
{
    let pre = s.subrange(0, i + 1);
    assert(pre.drop_last() =~= s.subrange(0, i));
    assert(pre.last() == s[i]);
}

/// Once a prefix of branches fails to consume, the whole list fails the
/// same way.
proof fn lemma_consume_whenthens_err_extends(
    s: Seq<PWhenThenV>,
    schema: Seq<EFieldV>,
    decls: Seq<ExtKeyV>,
    i: int,
)
    requires
        0 <= i <= s.len(),
        consume_whenthens(s.subrange(0, i), schema, decls) is Err,
    ensures
        consume_whenthens(s, schema, decls) == consume_whenthens(s.subrange(0, i), schema, decls),
    decreases s.len(),
{
    if i == s.len() {
        assert(s.subrange(0, i) =~= s);
    } else {
        assert(s.drop_last().subrange(0, i) =~= s.subrange(0, i));
        lemma_consume_whenthens_err_extends(s.drop_last(), schema, decls, i);
    }
}

/// Rebuilds a portable conditional's branch list left to right.
#[verifier::loop_isolation(false)]
fn reconstruct_whenthens(
    branches: &Vec<PWhenThen>,
    schema: &Vec<EField>,
    decls: &Vec<ExtensionDecl>,
) -> (r: Result<Vec<WhenThen>, TranslateError>)
    ensures
        (match r {
            Ok(es) => consume_whenthens(
                pwhenthens_view(branches@),
                efields_view(schema@),
                decls_view(decls@),
            ) == Ok::<_, TranslateError>(whenthens_view(es@)),
            Err(err) => consume_whenthens(
                pwhenthens_view(branches@),
                efields_view(schema@),
                decls_view(decls@),
            ) == Err::<Seq<WhenThenV>, _>(err),
        }),
    decreases branches,
{
    let ghost bv = pwhenthens_view(branches@);
    let ghost sv = efields_view(schema@);
    let ghost dv = decls_view(decls@);
    proof {
        lemma_pwhenthens_view_index(branches@);
        assert(bv.subrange(0, 0) =~= Seq::<PWhenThenV>::empty());
    }
    let mut out: Vec<WhenThen> = Vec::new();
    let mut i: usize = 0;
    while i < branches.len()
        invariant
            i <= branches.len(),
            bv == pwhenthens_view(branches@),
            sv == efields_view(schema@),
            dv == decls_view(decls@),
            bv.len() == branches@.len(),
            forall|j: int| 0 <= j < branches@.len() ==> bv[j] == pwhenthen_view(branches@[j]),
            consume_whenthens(bv.subrange(0, i as int), sv, dv) == Ok::<_, TranslateError>(
                whenthens_view(out@),
            ),
        decreases branches.len() - i,
    {
        let ghost out_pre = out@;
        let b = &branches[i];
        match from_portable_expr(&b.when, schema, decls) {
            Ok(ew) => {
                match from_portable_expr(&b.value, schema, decls) {
                    Ok(et) => {
                        out.push(WhenThen { when: ew, value: et });
                        proof {
                            lemma_consume_whenthens_unfold_prefix(bv, sv, dv, i as int);
                            assert(out@.drop_last() =~= out_pre);
                            assert(whenthens_view(out@) =~= whenthens_view(out_pre).push(
                                whenthen_view(out@.last()),
                            ));
                        }
                    },
                    Err(err) => {
                        proof {
                            lemma_consume_whenthens_unfold_prefix(bv, sv, dv, i as int);
                            lemma_consume_whenthens_err_extends(bv, sv, dv, i as int + 1);
                        }
                        return Err(err);
                    },
                }
            },
            Err(err) => {
                proof {
                    lemma_consume_whenthens_unfold_prefix(bv, sv, dv, i as int);
                    lemma_consume_whenthens_err_extends(bv, sv, dv, i as int + 1);
                }
                return Err(err);
            },
        }
        i = i + 1;
    }
    proof {
        assert(bv.subrange(0, branches@.len() as int) =~= bv);
    }
    Ok(out)
}

/// Rebuilds a portable conditional's optional ELSE branch.
fn reconstruct_opt(
    o: &Option<Box<PExpr>>,
    schema: &Vec<EField>,
    decls: &Vec<ExtensionDecl>,
) -> (r: Result<Option<Box<Expr>>, TranslateError>)
    ensures
        (match r {
            Ok(eo) => consume_opt_expr(
                crate::expr::popt_expr_view(*o),
                efields_view(schema@),
                decls_view(decls@),
            ) == Ok::<_, TranslateError>(crate::expr::opt_expr_view(eo)),
            Err(err) => consume_opt_expr(
                crate::expr::popt_expr_view(*o),
                efields_view(schema@),
                decls_view(decls@),
            ) == Err::<Option<Box<ExprV>>, _>(err),
        }),
    decreases o,
{
    match o {
        Some(b) => {
            match from_portable_expr(b, schema, decls) {
                Ok(e) => Ok(Some(Box::new(e))),
                Err(err) => Err(err),
            }
        },
        None => Ok(None),
    }
}

/// Rebuilds a portable argument list left to right.
#[verifier::loop_isolation(false)]
pub(crate) fn reconstruct_args(args: &Vec<PExpr>, schema: &Vec<EField>, decls: &Vec<ExtensionDecl>) -> (r:
    Result<Vec<Expr>, TranslateError>)
    ensures
        (match r {
            Ok(es) => consume_exprs(pexprs_view(args@), efields_view(schema@), decls_view(decls@))
                == Ok::<_, TranslateError>(exprs_view(es@)),
            Err(err) => consume_exprs(
                pexprs_view(args@),
                efields_view(schema@),
                decls_view(decls@),
            ) == Err::<Seq<ExprV>, _>(err),
        }),
    decreases args,
{
    let ghost av = pexprs_view(args@);
    let ghost sv = efields_view(schema@);
    let ghost dv = decls_view(decls@);
    proof {
        lemma_pexprs_view_index(args@);
        assert(av.subrange(0, 0) =~= Seq::<PExprV>::empty());
    }
    let mut out: Vec<Expr> = Vec::new();
    let mut i: usize = 0;
    while i < args.len()
        invariant
            i <= args.len(),
            av == pexprs_view(args@),
            sv == efields_view(schema@),
            dv == decls_view(decls@),
            av.len() == args@.len(),
            forall|j: int| 0 <= j < args@.len() ==> av[j] == pexpr_view(args@[j]),
            consume_exprs(av.subrange(0, i as int), sv, dv) == Ok::<_, TranslateError>(
                exprs_view(out@),
            ),
        decreases args.len() - i,
    {
        let ghost out_pre = out@;
        match from_portable_expr(&args[i], schema, decls) {
            Ok(e) => {
                out.push(e);
                proof {
                    lemma_consume_exprs_unfold_prefix(av, sv, dv, i as int);
                    assert(out@.drop_last() =~= out_pre);
                    assert(exprs_view(out@) =~= exprs_view(out_pre).push(expr_view(out@.last())));
                }
            },
            Err(err) => {
                proof {
                    lemma_consume_exprs_unfold_prefix(av, sv, dv, i as int);
                    lemma_consume_exprs_err_extends(av, sv, dv, i as int + 1);
                }
                return Err(err);
            },
        }
        i = i + 1;
    }
    proof {
        assert(av.subrange(0, args@.len() as int) =~= av);
    }
    Ok(out)
}

} // verus!
