use vstd::prelude::*;
use crate::types::{EngineType, ETypeV, etype_view};
use crate::ptypes::{PortableType, PTypeV, ptype_view};
use crate::literal::{EngineLiteral, ELitV, PLiteral, PLiteralV, elit_view, plit_view};

verus! {

/// Whether a window frame counts rows or value ranges.
#[derive(Clone, Copy, Debug, PartialEq, Eq, Structural)]
pub enum FrameUnit {
    Rows,
    Range,
}

/// One bound of a window frame.  Lower and upper bound may independently be
/// any of these, including degenerate combinations, which are preserved.
#[derive(Clone, Copy, Debug, PartialEq, Eq, Structural)]
pub enum FrameBound {
    Unbounded,
    CurrentRow,
    Preceding(u64),
    Following(u64),
}

/// A window frame: unit plus lower and upper bound.
#[derive(Clone, Copy, Debug, PartialEq, Eq, Structural)]
pub struct WindowFrame {
    pub unit: FrameUnit,
    pub lower: FrameBound,
    pub upper: FrameBound,
}

/// One branch of a conditional expression: a boolean test and its result.
#[derive(Debug, PartialEq)]
pub struct WhenThen {
    pub when: Expr,
    pub value: Expr,
}

/// One branch of a portable conditional expression.
#[derive(Debug, PartialEq)]
pub struct PWhenThen {
    pub when: PExpr,
    pub value: PExpr,
}

/// A scalar expression of the engine, typed at every function and cast.
///
/// Column references are by name; the producer resolves them positionally
/// against the input schema of the node the expression sits on.
#[derive(Debug, PartialEq)]
pub enum Expr {
    /// A column of the input schema, by name.
    Column { name: String },
    /// A typed literal.
    Literal(EngineLiteral),
    /// A scalar function call; the (name, signature) pair is what the anchor
    /// registry deduplicates on.
    ScalarFn {
        name: String,
        signature: String,
        args: Vec<Expr>,
        ret: EngineType,
        ret_nullable: bool,
    },
    /// A window function call with its frame.
    WindowFn {
        name: String,
        signature: String,
        args: Vec<Expr>,
        frame: WindowFrame,
        ret: EngineType,
        ret_nullable: bool,
    },
    /// A cast; `safe` casts yield NULL instead of failing at run time.
    Cast { input: Box<Expr>, ty: EngineType, nullable: bool, safe: bool },
    /// CASE WHEN ... THEN ... [ELSE ...] END, typed like every other
    /// composite expression.
    Case {
        branches: Vec<WhenThen>,
        otherwise: Option<Box<Expr>>,
        ret: EngineType,
        ret_nullable: bool,
    },
}

/// A scalar expression of the portable encoding.  Column references are
/// positional (field index into the input schema), never by name.
#[derive(Debug, PartialEq)]
pub enum PExpr {
    /// A field of the input schema, by position.
    Field(u64),
    /// A literal.
    Lit(PLiteral),
    /// A scalar function referenced by anchor, with its output type.
    ScalarFn { anchor: u64, args: Vec<PExpr>, ret: PortableType },
    /// A window function referenced by anchor, with frame and output type.
    WindowFn { anchor: u64, args: Vec<PExpr>, frame: WindowFrame, ret: PortableType },
    /// A cast.
    Cast { input: Box<PExpr>, ty: PortableType, safe: bool },
    /// A conditional with its output type.
    IfThen { branches: Vec<PWhenThen>, otherwise: Option<Box<PExpr>>, ret: PortableType },
}

/// Mathematical model of a [`WhenThen`].
#[verifier::ext_equal]
pub struct WhenThenV {
    pub when: ExprV,
    pub value: ExprV,
}

/// Mathematical model of a [`PWhenThen`].
#[verifier::ext_equal]
pub struct PWhenThenV {
    pub when: PExprV,
    pub value: PExprV,
}

/// Mathematical model of an [`Expr`].
#[verifier::ext_equal]
pub enum ExprV {
    Column { name: Seq<char> },
    Literal(ELitV),
    ScalarFn {
        name: Seq<char>,
        signature: Seq<char>,
        args: Seq<ExprV>,
        ret: ETypeV,
        ret_nullable: bool,
    },
    WindowFn {
        name: Seq<char>,
        signature: Seq<char>,
        args: Seq<ExprV>,
        frame: WindowFrame,
        ret: ETypeV,
        ret_nullable: bool,
    },
    Cast { input: Box<ExprV>, ty: ETypeV, nullable: bool, safe: bool },
    Case {
        branches: Seq<WhenThenV>,
        otherwise: Option<Box<ExprV>>,
        ret: ETypeV,
        ret_nullable: bool,
    },
}

/// Mathematical model of a [`PExpr`].
#[verifier::ext_equal]
pub enum PExprV {
    Field(int),
    Lit(PLiteralV),
    ScalarFn { anchor: int, args: Seq<PExprV>, ret: PTypeV },
    WindowFn { anchor: int, args: Seq<PExprV>, frame: WindowFrame, ret: PTypeV },
    Cast { input: Box<PExprV>, ty: PTypeV, safe: bool },
    IfThen { branches: Seq<PWhenThenV>, otherwise: Option<Box<PExprV>>, ret: PTypeV },
}

/// The model of a sequence of engine expressions, elementwise.
pub open spec fn exprs_view(s: Seq<Expr>) -> Seq<ExprV>
    decreases s, 1int,
{
    if s.len() == 0 {
        Seq::empty()
    } else {
        exprs_view(s.drop_last()).push(expr_view(s.last()))
    }
}

/// The model of an engine expression.
pub open spec fn expr_view(e: Expr) -> ExprV
    decreases e, 0int,
{
    match e {
        Expr::Column { name } => ExprV::Column { name: name@ },
        Expr::Literal(l) => ExprV::Literal(elit_view(l)),
        Expr::ScalarFn { name, signature, args, ret, ret_nullable } => ExprV::ScalarFn {
            name: name@,
            signature: signature@,
            args: exprs_view(args@),
            ret: etype_view(ret),
            ret_nullable,
        },
        Expr::WindowFn { name, signature, args, frame, ret, ret_nullable } => ExprV::WindowFn {
            name: name@,
            signature: signature@,
            args: exprs_view(args@),
            frame,
            ret: etype_view(ret),
            ret_nullable,
        },
        Expr::Cast { input, ty, nullable, safe } => ExprV::Cast {
            input: Box::new(expr_view(*input)),
            ty: etype_view(ty),
            nullable,
            safe,
        },
        Expr::Case { branches, otherwise, ret, ret_nullable } => ExprV::Case {
            branches: whenthens_view(branches@),
            otherwise: opt_expr_view(otherwise),
            ret: etype_view(ret),
            ret_nullable,
        },
    }
}

/// The model of an optional boxed expression.
pub open spec fn opt_expr_view(o: Option<Box<Expr>>) -> Option<Box<ExprV>>
    decreases o, 1int,
{
    match o {
        Some(b) => Some(Box::new(expr_view(*b))),
        None => None,
    }
}

/// The model of a sequence of conditional branches, elementwise.
pub open spec fn whenthens_view(s: Seq<WhenThen>) -> Seq<WhenThenV>
    decreases s, 1int,
{
    if s.len() == 0 {
        Seq::empty()
    } else {
        whenthens_view(s.drop_last()).push(whenthen_view(s.last()))
    }
}

/// The model of one conditional branch.
pub open spec fn whenthen_view(w: WhenThen) -> WhenThenV
    decreases w, 0int,
{
    WhenThenV { when: expr_view(w.when), value: expr_view(w.value) }
}

/// The model of a sequence of portable expressions, elementwise.
pub open spec fn pexprs_view(s: Seq<PExpr>) -> Seq<PExprV>
    decreases s, 1int,
{
    if s.len() == 0 {
        Seq::empty()
    } else {
        pexprs_view(s.drop_last()).push(pexpr_view(s.last()))
    }
}

/// The model of a portable expression.
pub open spec fn pexpr_view(e: PExpr) -> PExprV
    decreases e, 0int,
{
    match e {
        PExpr::Field(i) => PExprV::Field(i as int),
        PExpr::Lit(l) => PExprV::Lit(plit_view(l)),
        PExpr::ScalarFn { anchor, args, ret } => PExprV::ScalarFn {
            anchor: anchor as int,
            args: pexprs_view(args@),
            ret: ptype_view(ret),
        },
        PExpr::WindowFn { anchor, args, frame, ret } => PExprV::WindowFn {
            anchor: anchor as int,
            args: pexprs_view(args@),
            frame,
            ret: ptype_view(ret),
        },
        PExpr::Cast { input, ty, safe } => PExprV::Cast {
            input: Box::new(pexpr_view(*input)),
            ty: ptype_view(ty),
            safe,
        },
        PExpr::IfThen { branches, otherwise, ret } => PExprV::IfThen {
            branches: pwhenthens_view(branches@),
            otherwise: popt_expr_view(otherwise),
            ret: ptype_view(ret),
        },
    }
}

/// The model of an optional boxed portable expression.
pub open spec fn popt_expr_view(o: Option<Box<PExpr>>) -> Option<Box<PExprV>>
    decreases o, 1int,
{
    match o {
        Some(b) => Some(Box::new(pexpr_view(*b))),
        None => None,
    }
}

/// The model of a sequence of portable conditional branches, elementwise.
pub open spec fn pwhenthens_view(s: Seq<PWhenThen>) -> Seq<PWhenThenV>
    decreases s, 1int,
{
    if s.len() == 0 {
        Seq::empty()
    } else {
        pwhenthens_view(s.drop_last()).push(pwhenthen_view(s.last()))
    }
}

/// The model of one portable conditional branch.
pub open spec fn pwhenthen_view(w: PWhenThen) -> PWhenThenV
    decreases w, 0int,
{
    PWhenThenV { when: pexpr_view(w.when), value: pexpr_view(w.value) }
}

impl View for Expr {
    type V = ExprV;

    open spec fn view(&self) -> ExprV {
        expr_view(*self)
    }
}

impl View for PExpr {
    type V = PExprV;

    open spec fn view(&self) -> PExprV {
        pexpr_view(*self)
    }
}

/// Expression-sequence views are elementwise.
pub proof fn lemma_exprs_view_index(s: Seq<Expr>)
    ensures
        exprs_view(s).len() == s.len(),
        forall|i: int| 0 <= i < s.len() ==> exprs_view(s)[i] == expr_view(s[i]),
    decreases s,
{
    if s.len() > 0 {
        lemma_exprs_view_index(s.drop_last());
    }
}

/// Portable expression-sequence views are elementwise.
pub proof fn lemma_pexprs_view_index(s: Seq<PExpr>)
    ensures
        pexprs_view(s).len() == s.len(),
        forall|i: int| 0 <= i < s.len() ==> pexprs_view(s)[i] == pexpr_view(s[i]),
    decreases s,
{
    if s.len() > 0 {
        lemma_pexprs_view_index(s.drop_last());
    }
}

/// Branch-sequence views are elementwise.
pub proof fn lemma_whenthens_view_index(s: Seq<WhenThen>)
    ensures
        whenthens_view(s).len() == s.len(),
        forall|i: int| 0 <= i < s.len() ==> whenthens_view(s)[i] == whenthen_view(s[i]),
    decreases s,
{
    if s.len() > 0 {
        lemma_whenthens_view_index(s.drop_last());
    }
}

/// Portable branch-sequence views are elementwise.
pub proof fn lemma_pwhenthens_view_index(s: Seq<PWhenThen>)
    ensures
        pwhenthens_view(s).len() == s.len(),
        forall|i: int| 0 <= i < s.len() ==> pwhenthens_view(s)[i] == pwhenthen_view(s[i]),
    decreases s,
{
    if s.len() > 0 {
        lemma_pwhenthens_view_index(s.drop_last());
    }
}

/// Expression-sequence views distribute over concatenation.
pub proof fn lemma_exprs_view_concat(a: Seq<Expr>, b: Seq<Expr>)
    ensures
        exprs_view(a + b) == exprs_view(a) + exprs_view(b),
{
    lemma_exprs_view_index(a);
    lemma_exprs_view_index(b);
    lemma_exprs_view_index(a + b);
    assert(exprs_view(a + b) =~= exprs_view(a) + exprs_view(b));
}

/// Copies an engine expression, preserving its model.
pub fn clone_expr(e: &Expr) -> (r: Expr)
    ensures
        r@ == e@,
    decreases *e, 0int,
{
    match e {
        Expr::Column { name } => Expr::Column { name: name.clone() },
        Expr::Literal(l) => Expr::Literal(crate::literal::clone_literal(l)),
        Expr::ScalarFn { name, signature, args, ret, ret_nullable } => Expr::ScalarFn {
            name: name.clone(),
            signature: signature.clone(),
            args: clone_exprs(args),
            ret: crate::types::clone_etype(ret),
            ret_nullable: *ret_nullable,
        },
        Expr::WindowFn { name, signature, args, frame, ret, ret_nullable } => Expr::WindowFn {
            name: name.clone(),
            signature: signature.clone(),
            args: clone_exprs(args),
            frame: *frame,
            ret: crate::types::clone_etype(ret),
            ret_nullable: *ret_nullable,
        },
        Expr::Cast { input, ty, nullable, safe } => Expr::Cast {
            input: Box::new(clone_expr(input)),
            ty: crate::types::clone_etype(ty),
            nullable: *nullable,
            safe: *safe,
        },
        Expr::Case { branches, otherwise, ret, ret_nullable } => {
            let cb = clone_whenthens(branches);
            let co = match otherwise {
                Some(b) => Some(Box::new(clone_expr(b))),
                None => None,
            };
            proof {
                assert(opt_expr_view(co) == opt_expr_view(*otherwise));
            }
            Expr::Case {
                branches: cb,
                otherwise: co,
                ret: crate::types::clone_etype(ret),
                ret_nullable: *ret_nullable,
            }
        },
    }
}

/// Copies a conditional branch list, preserving its model.
pub fn clone_whenthens(s: &Vec<WhenThen>) -> (r: Vec<WhenThen>)
    ensures
        whenthens_view(r@) == whenthens_view(s@),
        r@.len() == s@.len(),
    decreases *s, 1int,
{
    proof {
        lemma_whenthens_view_index(s@);
    }
    let mut out: Vec<WhenThen> = Vec::new();
    let mut i: usize = 0;
    while i < s.len()
        invariant
            i <= s.len(),
            out@.len() == i,
            forall|j: int| 0 <= j < i ==> whenthen_view(out@[j]) == whenthen_view(s@[j]),
        decreases s.len() - i,
    {
        let w = &s[i];
        out.push(WhenThen { when: clone_expr(&w.when), value: clone_expr(&w.value) });
        i = i + 1;
    }
    proof {
        lemma_whenthens_view_index(out@);
        assert(whenthens_view(out@) =~= whenthens_view(s@));
    }
    out
}

/// Copies an expression list, preserving its model.
pub fn clone_exprs(s: &Vec<Expr>) -> (r: Vec<Expr>)
    ensures
        exprs_view(r@) == exprs_view(s@),
        r@.len() == s@.len(),
    decreases *s, 1int,
{
    proof {
        lemma_exprs_view_index(s@);
    }
    let mut out: Vec<Expr> = Vec::new();
    let mut i: usize = 0;
    while i < s.len()
        invariant
            i <= s.len(),
            out@.len() == i,
            forall|j: int| 0 <= j < i ==> expr_view(out@[j]) == expr_view(s@[j]),
        decreases s.len() - i,
    {
        out.push(clone_expr(&s[i]));
        i = i + 1;
    }
    proof {
        lemma_exprs_view_index(out@);
        assert(exprs_view(out@) =~= exprs_view(s@));
    }
    out
}

} // verus!
