use vstd::prelude::*;

use crate::context::TypingContext;
use crate::expr::{
    duplicate_opt_type, lemma_types_value_index, opt_type_value, type_value, types_value, Expr,
    ExprMetadata, ExprType, SpanValue, TypeValue,
};
use crate::validation::{
    DatamodelError, DatamodelErrorValue, Diagnostics, TypeErrorKind, TypeErrorKindValue,
};

verus! {

/// The part of the intermediate representation that the type checker reads:
/// the subtype relation on atomic (field) types, given as the list of pairs
/// `(sub, sup)` for which `sub` is a subtype of `sup`, and the expression
/// functions of the program.
#[derive(Debug)]
pub struct Ir {
    pub atom_subtypes: Vec<(String, String)>,
    pub expr_fns: Vec<ExprFunction>,
}

/// A top-level function written in the expression language.
#[derive(Debug)]
pub struct ExprFunction {
    pub name: String,
    pub expr: Expr,
}

/// Whether `x <: y` is listed in `pairs`.
pub open spec fn listed_subtype(pairs: Seq<(String, String)>, x: Seq<char>, y: Seq<char>) -> bool {
    exists|i: int| 0 <= i < pairs.len() && #[trigger] pairs[i].0@ == x && pairs[i].1@ == y
}

impl Ir {
    /// The subtype relation on atomic types.
    pub open spec fn atom_relation(&self) -> spec_fn(Seq<char>, Seq<char>) -> bool {
        let pairs = self.atom_subtypes@;
        |x: Seq<char>, y: Seq<char>| listed_subtype(pairs, x, y)
    }

    /// Whether the atomic type `a` is a subtype of the atomic type `b`.
    pub fn is_subtype(&self, a: &String, b: &String) -> (r: bool)
        ensures
            r == (self.atom_relation())(a@, b@),
    {
        let n = self.atom_subtypes.len();
        for i in 0..n
            invariant
                n == self.atom_subtypes@.len(),
                forall|j: int| 0 <= j < i ==> !(#[trigger] self.atom_subtypes@[j].0@ == a@ && self.atom_subtypes@[j].1@ == b@),
        {
            if self.atom_subtypes[i].0 == *a && self.atom_subtypes[i].1 == *b {
                return true;
            }
        }
        false
    }
}

/// `a <: b` when `!flipped`, and `b <: a` when `flipped`, given the subtype
/// relation `rel` on atomic types. Function types are covariant in their
/// result and contravariant in their parameters. The recursion descends into
/// `a` and the matching part of `b`, flipping the direction at parameters.
pub open spec fn subtype_dir(
    rel: spec_fn(Seq<char>, Seq<char>) -> bool,
    a: TypeValue,
    b: TypeValue,
    flipped: bool,
) -> bool
    decreases a, 0nat,
{
    match (a, b) {
        (TypeValue::Atom(x), TypeValue::Atom(y)) => if flipped {
            rel(y, x)
        } else {
            rel(x, y)
        },
        (TypeValue::Arrow(xs, xr), TypeValue::Arrow(ys, yr)) => {
            &&& subtype_dir(rel, *xr, *yr, flipped)
            &&& params_dir(rel, xs, ys, !flipped)
        },
        _ => false,
    }
}

/// The parameter lists `xs` and `ys` are related by `subtype_dir` in the
/// direction `flipped`, pairwise up to the end of the shorter list.
pub open spec fn params_dir(
    rel: spec_fn(Seq<char>, Seq<char>) -> bool,
    xs: Seq<TypeValue>,
    ys: Seq<TypeValue>,
    flipped: bool,
) -> bool
    decreases xs, xs.len(),
{
    if xs.len() == 0 || ys.len() == 0 {
        true
    } else {
        &&& subtype_dir(rel, xs[0], ys[0], flipped)
        &&& params_dir(rel, xs.drop_first(), ys.drop_first(), flipped)
    }
}

/// `params_dir` holds exactly when each pair of parameters up to the end of
/// the shorter list is related.
pub proof fn lemma_params_dir(
    rel: spec_fn(Seq<char>, Seq<char>) -> bool,
    xs: Seq<TypeValue>,
    ys: Seq<TypeValue>,
    flipped: bool,
)
    ensures
        params_dir(rel, xs, ys, flipped) <==> forall|j: int|
            0 <= j < xs.len() && j < ys.len() ==> subtype_dir(rel, #[trigger] xs[j], ys[j], flipped),
    decreases xs.len(),
{
    if xs.len() > 0 && ys.len() > 0 {
        lemma_params_dir(rel, xs.drop_first(), ys.drop_first(), flipped);
        if params_dir(rel, xs, ys, flipped) {
            assert forall|j: int| 0 <= j < xs.len() && j < ys.len() implies subtype_dir(rel, #[trigger] xs[j], ys[j], flipped) by {
                if j > 0 {
                    assert(xs.drop_first()[j - 1] == xs[j]);
                    assert(ys.drop_first()[j - 1] == ys[j]);
                }
            }
        } else if subtype_dir(rel, xs[0], ys[0], flipped) {
            let k = choose|k: int| 0 <= k < xs.len() - 1 && k < ys.len() - 1 && !subtype_dir(rel, #[trigger] xs.drop_first()[k], ys.drop_first()[k], flipped);
            assert(xs.drop_first()[k] == xs[k + 1]);
            assert(ys.drop_first()[k] == ys[k + 1]);
        }
    }
}

/// Whether `a` is a subtype of `b`.
pub open spec fn spec_is_subtype(rel: spec_fn(Seq<char>, Seq<char>) -> bool, a: TypeValue, b: TypeValue) -> bool {
    subtype_dir(rel, a, b, false)
}

/// Whether two optional types are compatible: an unknown type is compatible
/// with anything, and two known types when the first is a subtype of the
/// second.
pub open spec fn spec_compatible(
    rel: spec_fn(Seq<char>, Seq<char>) -> bool,
    a: Option<TypeValue>,
    b: Option<TypeValue>,
) -> bool {
    match (a, b) {
        (Some(a), Some(b)) => spec_is_subtype(rel, a, b),
        _ => true,
    }
}

/// Decides `subtype_dir(ir.atom_relation(), a@, b@, flipped)`.
fn subtype_dir_exec(ir: &Ir, a: &ExprType, b: &ExprType, flipped: bool) -> (r: bool)
    ensures
        r == subtype_dir(ir.atom_relation(), a@, b@, flipped),
    decreases a,
{
    match (a, b) {
        (ExprType::Atom(x), ExprType::Atom(y)) => {
            if flipped {
                ir.is_subtype(y, x)
            } else {
                ir.is_subtype(x, y)
            }
        },
        (ExprType::Arrow(x), ExprType::Arrow(y)) => {
            let return_type_ok = subtype_dir_exec(ir, &x.body_type, &y.body_type, flipped);
            let n = if x.param_types.len() < y.param_types.len() {
                x.param_types.len()
            } else {
                y.param_types.len()
            };
            proof {
                lemma_types_value_index(x.param_types@);
                lemma_types_value_index(y.param_types@);
            }
            let mut arg_types_ok = true;
            for i in 0..n
                invariant
                    *a == ExprType::Arrow(*x),
                    n <= x.param_types@.len(),
                    n <= y.param_types@.len(),
                    n == x.param_types@.len() || n == y.param_types@.len(),
                    types_value(x.param_types@).len() == x.param_types@.len(),
                    types_value(y.param_types@).len() == y.param_types@.len(),
                    forall|j: int| 0 <= j < x.param_types@.len() ==> #[trigger] types_value(x.param_types@)[j] == type_value(x.param_types@[j]),
                    forall|j: int| 0 <= j < y.param_types@.len() ==> #[trigger] types_value(y.param_types@)[j] == type_value(y.param_types@[j]),
                    arg_types_ok == forall|j: int| 0 <= j < i ==> subtype_dir(
                        ir.atom_relation(),
                        #[trigger] types_value(x.param_types@)[j],
                        types_value(y.param_types@)[j],
                        !flipped,
                    ),
            {
                proof {
                    crate::expr::lemma_param_type_decreases(*a, i as int);
                }
                let ok = subtype_dir_exec(ir, &x.param_types[i], &y.param_types[i], !flipped);
                assert(ok == subtype_dir(
                    ir.atom_relation(),
                    types_value(x.param_types@)[i as int],
                    types_value(y.param_types@)[i as int],
                    !flipped,
                ));
                arg_types_ok = arg_types_ok && ok;
            }
            let r = return_type_ok && arg_types_ok;
            proof {
                lemma_params_dir(ir.atom_relation(), types_value(x.param_types@), types_value(y.param_types@), !flipped);
            }
            r
        },
        _ => false,
    }
}

/// Whether `a` is a subtype of `b`: atomic types as the IR relates them,
/// function types covariantly in the result and contravariantly in the
/// parameters, compared pairwise up to the shorter parameter list.
pub fn is_subtype(ir: &Ir, a: &ExprType, b: &ExprType) -> (r: bool)
    ensures
        r == spec_is_subtype(ir.atom_relation(), a@, b@),
{
    subtype_dir_exec(ir, a, b, false)
}

/// Whether two optional types are compatible: `true` unless both are known
/// and the first is not a subtype of the second.
pub fn compatible_as_subtype(ir: &Ir, a: &Option<ExprType>, b: &Option<ExprType>) -> (r: bool)
    ensures
        r == spec_compatible(ir.atom_relation(), opt_type_value(*a), opt_type_value(*b)),
{
    match (a, b) {
        (Some(a), Some(b)) => is_subtype(ir, a, b),
        _ => true,
    }
}


/// The smaller of two numbers.
pub open spec fn min_nat(a: nat, b: nat) -> nat {
    if a <= b { a } else { b }
}

/// A single error of the given kind at `span`.
pub open spec fn error_at(kind: TypeErrorKindValue, span: SpanValue) -> Seq<DatamodelErrorValue> {
    seq![DatamodelErrorValue { kind, span }]
}

/// `ctx` with `names[i]` bound to `tys[i]` for each `i < n`, in order.
pub open spec fn bind_params(
    ctx: Map<Seq<char>, TypeValue>,
    names: Seq<String>,
    tys: Seq<TypeValue>,
    n: nat,
) -> Map<Seq<char>, TypeValue>
    decreases n,
{
    if n == 0 {
        ctx
    } else {
        bind_params(ctx, names, tys, (n - 1) as nat).insert(names[n - 1]@, tys[n - 1])
    }
}

/// `ctx` with `names[i]` bound to the type of `args[i]`, for each `i < n` at
/// which that type is known, in order.
pub open spec fn bind_args(
    ctx: Map<Seq<char>, TypeValue>,
    names: Seq<String>,
    args: Seq<Expr>,
    n: nat,
) -> Map<Seq<char>, TypeValue>
    decreases n,
{
    if n == 0 {
        ctx
    } else {
        let c = bind_args(ctx, names, args, (n - 1) as nat);
        match args[n - 1].type_of() {
            Some(t) => c.insert(names[n - 1]@, t),
            None => c,
        }
    }
}

/// The mismatches between the first `n` arguments and parameter types of an
/// application at `span`, in order.
pub open spec fn arg_errors(
    rel: spec_fn(Seq<char>, Seq<char>) -> bool,
    param_tys: Seq<TypeValue>,
    args: Seq<Expr>,
    span: SpanValue,
    n: nat,
) -> Seq<DatamodelErrorValue>
    decreases n,
{
    if n == 0 {
        Seq::empty()
    } else {
        let found = args[n - 1].type_of();
        let expected = param_tys[n - 1];
        arg_errors(rel, param_tys, args, span, (n - 1) as nat) + if spec_compatible(rel, found, Some(expected)) {
            Seq::empty()
        } else {
            error_at(TypeErrorKindValue::AppMismatch { found, expected }, span)
        }
    }
}

/// The errors that type checking `e` in the context `ctx` reports, in order.
///
/// - A variable annotated with an atomic type that the context binds to an
///   atomic type that is not a subtype of it is a mismatch.
/// - A lambda annotated with a function type binds its parameters to the
///   parameter types (pairwise, up to the shorter list), reports its body if
///   the body's type is not compatible with the result type, and checks its
///   body in the extended context.
/// - An application of a lambda to an argument tuple, itself annotated with a
///   type, checks the application's type and each argument's type against the
///   lambda's function type (or reports that the lambda's type is no function
///   type), binds the parameters to the known argument types, and checks the
///   lambda's body in that context.
/// - Nothing else is reported.
pub open spec fn typecheck_errors(
    rel: spec_fn(Seq<char>, Seq<char>) -> bool,
    ctx: Map<Seq<char>, TypeValue>,
    e: Expr,
) -> Seq<DatamodelErrorValue>
    decreases e,
{
    match e {
        Expr::Var(name, meta) => match opt_type_value(meta.ty) {
            Some(TypeValue::Atom(var_t)) => if ctx.contains_key(name@) {
                match ctx[name@] {
                    TypeValue::Atom(ctx_t) => if rel(ctx_t, var_t) {
                        Seq::empty()
                    } else {
                        error_at(TypeErrorKindValue::Mismatch, meta.span@)
                    },
                    _ => Seq::empty(),
                }
            } else {
                Seq::empty()
            },
            _ => Seq::empty(),
        },
        Expr::Lambda(params, body, meta) => match opt_type_value(meta.ty) {
            Some(TypeValue::Arrow(ps, rt)) => {
                let inner = bind_params(ctx, params@, ps, min_nat(ps.len(), params@.len()));
                let found = body.type_of();
                let head = if spec_compatible(rel, found, Some(*rt)) {
                    Seq::empty()
                } else {
                    error_at(TypeErrorKindValue::LambdaMismatch { found, expected: *rt }, meta.span@)
                };
                head + typecheck_errors(rel, inner, *body)
            },
            _ => Seq::empty(),
        },
        Expr::App(f, xs, meta) => match (*f, *xs, opt_type_value(meta.ty)) {
            (Expr::Lambda(params, body, lmeta), Expr::ArgsTuple(args, _), Some(app_t)) => {
                let checks = match opt_type_value(lmeta.ty) {
                    Some(TypeValue::Arrow(ps, rt)) => {
                        let head = if spec_compatible(rel, Some(app_t), Some(*rt)) {
                            Seq::empty()
                        } else {
                            error_at(
                                TypeErrorKindValue::AppMismatch { found: Some(app_t), expected: *rt },
                                meta.span@,
                            )
                        };
                        head + arg_errors(rel, ps, args@, meta.span@, min_nat(ps.len(), args@.len()))
                    },
                    Some(TypeValue::Atom(_)) => error_at(TypeErrorKindValue::ExpectedFunctionType, meta.span@),
                    None => Seq::empty(),
                };
                let inner = bind_args(ctx, params@, args@, min_nat(params@.len(), args@.len()));
                checks + typecheck_errors(rel, inner, *body)
            },
            _ => Seq::empty(),
        },
        _ => Seq::empty(),
    }
}


/// Reports at `span` that `found` does not have the type `expected`.
fn app_mismatch(found: &Option<ExprType>, expected: &ExprType, span: &crate::expr::Span) -> (e: DatamodelError)
    ensures
        e@ == (DatamodelErrorValue {
            kind: TypeErrorKindValue::AppMismatch { found: opt_type_value(*found), expected: expected@ },
            span: span@,
        }),
{
    DatamodelError {
        kind: TypeErrorKind::AppMismatch { found: duplicate_opt_type(found), expected: expected.duplicate() },
        span: span.duplicate(),
    }
}

/// Type checks `expr` in `typing_context`, appending every error found to
/// `diagnostics`, in order. Checking itself never fails.
pub fn typecheck_in_context<'a>(
    ir: &Ir,
    diagnostics: &mut Diagnostics,
    typing_context: &TypingContext<'a>,
    expr: &'a Expr,
)
    ensures
        final(diagnostics)@ == old(diagnostics)@ + typecheck_errors(
            ir.atom_relation(),
            typing_context@,
            *expr,
        ),
    decreases expr,
{
    let ghost rel = ir.atom_relation();
    let ghost start = diagnostics@;
    match expr {
        Expr::Var(var, meta) => {
            if let Some(ExprType::Atom(var_type)) = &meta.ty {
                if let Some(ExprType::Atom(ctx_type)) = typing_context.get(var) {
                    if !ir.is_subtype(ctx_type, var_type) {
                        diagnostics.push_error(
                            DatamodelError { kind: TypeErrorKind::Mismatch, span: meta.span.duplicate() },
                        );
                    }
                }
            }
            assert(diagnostics@ =~= start + typecheck_errors(rel, typing_context@, *expr));
        },
        Expr::Lambda(param_names, body, meta) => {
            if let Some(ExprType::Arrow(arrow)) = &meta.ty {
                let mut inner_context = typing_context.duplicate();
                let n = if arrow.param_types.len() < param_names.len() {
                    arrow.param_types.len()
                } else {
                    param_names.len()
                };
                proof {
                    lemma_types_value_index(arrow.param_types@);
                }
                for i in 0..n
                    invariant
                        n <= arrow.param_types@.len(),
                        n <= param_names@.len(),
                        types_value(arrow.param_types@).len() == arrow.param_types@.len(),
                        forall|j: int| 0 <= j < arrow.param_types@.len() ==> #[trigger] types_value(arrow.param_types@)[j] == type_value(arrow.param_types@[j]),
                        inner_context@ == bind_params(typing_context@, param_names@, types_value(arrow.param_types@), i as nat),
                {
                    inner_context.insert(&param_names[i], &arrow.param_types[i]);
                }
                let expected = Some(arrow.body_type.duplicate());
                if !compatible_as_subtype(ir, &body.meta().ty, &expected) {
                    diagnostics.push_error(
                        DatamodelError {
                            kind: TypeErrorKind::LambdaMismatch {
                                found: duplicate_opt_type(&body.meta().ty),
                                expected: arrow.body_type.duplicate(),
                            },
                            span: meta.span.duplicate(),
                        },
                    );
                }
                typecheck_in_context(ir, diagnostics, &inner_context, body);
                assert(diagnostics@ =~= start + typecheck_errors(rel, typing_context@, *expr));
            } else {
                assert(diagnostics@ =~= start + typecheck_errors(rel, typing_context@, *expr));
            }
        },
        Expr::App(f, xs, meta) => {
            if let Expr::Lambda(params, body, lambda_meta) = &**f {
                if let Expr::ArgsTuple(args, _) = &**xs {
                    if let Some(app_type) = &meta.ty {
                        match &lambda_meta.ty {
                            Some(ExprType::Arrow(arrow)) => {
                                let found = Some(app_type.duplicate());
                                let expected = Some(arrow.body_type.duplicate());
                                if !compatible_as_subtype(ir, &found, &expected) {
                                    diagnostics.push_error(app_mismatch(&found, &arrow.body_type, &meta.span));
                                }
                                let n = if arrow.param_types.len() < args.len() {
                                    arrow.param_types.len()
                                } else {
                                    args.len()
                                };
                                proof {
                                    lemma_types_value_index(arrow.param_types@);
                                }
                                let ghost before_args = diagnostics@;
                                for i in 0..n
                                    invariant
                                        n <= arrow.param_types@.len(),
                                        n <= args@.len(),
                                        rel == ir.atom_relation(),
                                        types_value(arrow.param_types@).len() == arrow.param_types@.len(),
                                        forall|j: int| 0 <= j < arrow.param_types@.len() ==> #[trigger] types_value(arrow.param_types@)[j] == type_value(arrow.param_types@[j]),
                                        diagnostics@ == before_args + arg_errors(
                                            rel,
                                            types_value(arrow.param_types@),
                                            args@,
                                            meta.span@,
                                            i as nat,
                                        ),
                                {
                                    let expected_param = Some(arrow.param_types[i].duplicate());
                                    if !compatible_as_subtype(ir, &args[i].meta().ty, &expected_param) {
                                        diagnostics.push_error(
                                            app_mismatch(&args[i].meta().ty, &arrow.param_types[i], &meta.span),
                                        );
                                    }
                                    assert(diagnostics@ =~= before_args + arg_errors(
                                        rel,
                                        types_value(arrow.param_types@),
                                        args@,
                                        meta.span@,
                                        (i + 1) as nat,
                                    ));
                                }
                            },
                            Some(ExprType::Atom(_)) => {
                                diagnostics.push_error(
                                    DatamodelError {
                                        kind: TypeErrorKind::ExpectedFunctionType,
                                        span: meta.span.duplicate(),
                                    },
                                );
                            },
                            None => {},
                        }
                        let mut inner_context = typing_context.duplicate();
                        let n = if params.len() < args.len() {
                            params.len()
                        } else {
                            args.len()
                        };
                        for i in 0..n
                            invariant
                                n <= params@.len(),
                                n <= args@.len(),
                                inner_context@ == bind_args(typing_context@, params@, args@, i as nat),
                        {
                            if let Some(arg_type) = &args[i].meta().ty {
                                inner_context.insert(&params[i], arg_type);
                            }
                        }
                        typecheck_in_context(ir, diagnostics, &inner_context, body);
                        assert(diagnostics@ =~= start + typecheck_errors(rel, typing_context@, *expr));
                        return;
                    }
                }
            }
            assert(diagnostics@ =~= start + typecheck_errors(rel, typing_context@, *expr));
        },
        _ => {
            assert(diagnostics@ =~= start + typecheck_errors(rel, typing_context@, *expr));
        },
    }
}


/// The errors that checking the first `n` expression functions reports, each
/// in the empty context, in order.
pub open spec fn expr_fns_errors(
    rel: spec_fn(Seq<char>, Seq<char>) -> bool,
    fns: Seq<ExprFunction>,
    n: nat,
) -> Seq<DatamodelErrorValue>
    decreases n,
{
    if n == 0 {
        Seq::empty()
    } else {
        expr_fns_errors(rel, fns, (n - 1) as nat) + typecheck_errors(rel, Map::empty(), fns[n - 1].expr)
    }
}

/// Type checks every expression function of `ir` in the empty context, in
/// order, appending the errors found to `diagnostics`.
pub fn typecheck_exprs(ir: &Ir, diagnostics: &mut Diagnostics)
    ensures
        final(diagnostics)@ == old(diagnostics)@ + expr_fns_errors(
            ir.atom_relation(),
            ir.expr_fns@,
            ir.expr_fns@.len(),
        ),
{
    let ghost start = diagnostics@;
    let n = ir.expr_fns.len();
    for i in 0..n
        invariant
            n == ir.expr_fns@.len(),
            diagnostics@ == start + expr_fns_errors(ir.atom_relation(), ir.expr_fns@, i as nat),
    {
        let typing_context = TypingContext::new();
        typecheck_in_context(ir, diagnostics, &typing_context, &ir.expr_fns[i].expr);
        assert(diagnostics@ =~= start + expr_fns_errors(ir.atom_relation(), ir.expr_fns@, (i + 1) as nat));
    }
}

/// Relating `a` to `b` in the flipped direction is relating `b` to `a` in
/// the plain direction, and the other way round.
proof fn lemma_subtype_flip(rel: spec_fn(Seq<char>, Seq<char>) -> bool, a: TypeValue, b: TypeValue)
    ensures
        subtype_dir(rel, a, b, true) == subtype_dir(rel, b, a, false),
        subtype_dir(rel, b, a, true) == subtype_dir(rel, a, b, false),
    decreases a,
{
    match (a, b) {
        (TypeValue::Arrow(xs, xr), TypeValue::Arrow(ys, yr)) => {
            lemma_subtype_flip(rel, *xr, *yr);
            assert forall|j: int| 0 <= j < xs.len() && j < ys.len() implies
                subtype_dir(rel, #[trigger] xs[j], ys[j], true) == subtype_dir(rel, ys[j], xs[j], false)
                && subtype_dir(rel, ys[j], xs[j], true) == subtype_dir(rel, xs[j], ys[j], false) by {
                lemma_subtype_flip(rel, xs[j], ys[j]);
            }
            lemma_params_dir(rel, xs, ys, true);
            lemma_params_dir(rel, xs, ys, false);
            lemma_params_dir(rel, ys, xs, true);
            lemma_params_dir(rel, ys, xs, false);
            assert(params_dir(rel, xs, ys, false) == params_dir(rel, ys, xs, true));
            assert(params_dir(rel, xs, ys, true) == params_dir(rel, ys, xs, false));
        },
        _ => {},
    }
}

/// Subtyping of function types: `a` is a subtype of `b` when both are
/// atomic types that the IR relates, or both are function types whose
/// results are related covariantly and whose parameters, pairwise up to the
/// shorter list, are related contravariantly.
pub proof fn lemma_is_subtype_unfold(rel: spec_fn(Seq<char>, Seq<char>) -> bool, a: TypeValue, b: TypeValue)
    ensures
        spec_is_subtype(rel, a, b) == match (a, b) {
            (TypeValue::Atom(x), TypeValue::Atom(y)) => rel(x, y),
            (TypeValue::Arrow(xs, xr), TypeValue::Arrow(ys, yr)) => {
                &&& spec_is_subtype(rel, *xr, *yr)
                &&& forall|i: int|
                    0 <= i < xs.len() && i < ys.len() ==> #[trigger] spec_is_subtype(rel, ys[i], xs[i])
            },
            _ => false,
        },
{
    match (a, b) {
        (TypeValue::Arrow(xs, xr), TypeValue::Arrow(ys, yr)) => {
            lemma_params_dir(rel, xs, ys, true);
            assert forall|i: int| 0 <= i < xs.len() && i < ys.len() implies
                subtype_dir(rel, #[trigger] xs[i], ys[i], true) == spec_is_subtype(rel, ys[i], xs[i]) by {
                lemma_subtype_flip(rel, xs[i], ys[i]);
            }
        },
        _ => {},
    }
}

/// Where the IR's relation on atomic types is reflexive, every type is a
/// subtype of itself.
pub proof fn lemma_is_subtype_reflexive(rel: spec_fn(Seq<char>, Seq<char>) -> bool, t: TypeValue)
    requires
        forall|x: Seq<char>| #[trigger] rel(x, x),
    ensures
        spec_is_subtype(rel, t, t),
{
    lemma_subtype_dir_reflexive(rel, t);
}

/// `subtype_dir` relates every type to itself in both directions.
proof fn lemma_subtype_dir_reflexive(rel: spec_fn(Seq<char>, Seq<char>) -> bool, t: TypeValue)
    requires
        forall|x: Seq<char>| #[trigger] rel(x, x),
    ensures
        subtype_dir(rel, t, t, false),
        subtype_dir(rel, t, t, true),
    decreases t,
{
    match t {
        TypeValue::Atom(x) => {
            assert(rel(x, x));
        },
        TypeValue::Arrow(xs, xr) => {
            lemma_subtype_dir_reflexive(rel, *xr);
            assert forall|j: int| 0 <= j < xs.len() implies
                subtype_dir(rel, #[trigger] xs[j], xs[j], true) && subtype_dir(rel, xs[j], xs[j], false) by {
                lemma_subtype_dir_reflexive(rel, xs[j]);
            }
            lemma_params_dir(rel, xs, xs, true);
            lemma_params_dir(rel, xs, xs, false);
        },
    }
}


/// Literals and references to LLM functions always type check: checking them
/// reports nothing, in any context.
pub proof fn lemma_atoms_and_llm_functions_typecheck(
    rel: spec_fn(Seq<char>, Seq<char>) -> bool,
    ctx: Map<Seq<char>, TypeValue>,
    e: Expr,
)
    requires
        e is Atom || e is LLMFunction,
    ensures
        typecheck_errors(rel, ctx, e) == Seq::<DatamodelErrorValue>::empty(),
{
}


/// Whether `span` is the span in the metadata of `e` or of one of its
/// sub-expressions.
pub open spec fn has_span(e: Expr, span: SpanValue) -> bool
    decreases e, 0nat,
{
    ||| e.spec_meta().span@ == span
    ||| match e {
        Expr::Lambda(_, body, _) => has_span(*body, span),
        Expr::App(f, xs, _) => has_span(*f, span) || has_span(*xs, span),
        Expr::Let(_, value, body, _) => has_span(*value, span) || has_span(*body, span),
        Expr::ArgsTuple(args, _) => any_has_span(args@, span),
        _ => false,
    }
}

/// Whether `span` is the span of one of the expressions `es` or of one of
/// their sub-expressions.
pub open spec fn any_has_span(es: Seq<Expr>, span: SpanValue) -> bool
    decreases es, es.len(),
{
    if es.len() == 0 {
        false
    } else {
        has_span(es.last(), span) || any_has_span(es.drop_last(), span)
    }
}

/// Every argument mismatch of an application is reported at the
/// application's span.
proof fn lemma_arg_error_spans(
    rel: spec_fn(Seq<char>, Seq<char>) -> bool,
    param_tys: Seq<TypeValue>,
    args: Seq<Expr>,
    span: SpanValue,
    n: nat,
)
    ensures
        forall|k: int| 0 <= k < arg_errors(rel, param_tys, args, span, n).len()
            ==> (#[trigger] arg_errors(rel, param_tys, args, span, n)[k]).span == span,
    decreases n,
{
    if n > 0 {
        lemma_arg_error_spans(rel, param_tys, args, span, (n - 1) as nat);
    }
}

/// Type checking reports every error at the span of the checked expression
/// or of one of its sub-expressions.
pub proof fn lemma_error_spans(rel: spec_fn(Seq<char>, Seq<char>) -> bool, ctx: Map<Seq<char>, TypeValue>, e: Expr)
    ensures
        forall|k: int| 0 <= k < typecheck_errors(rel, ctx, e).len()
            ==> has_span(e, (#[trigger] typecheck_errors(rel, ctx, e)[k]).span),
    decreases e,
{
    let errs = typecheck_errors(rel, ctx, e);
    match e {
        Expr::Lambda(params, body, meta) => {
            match opt_type_value(meta.ty) {
                Some(TypeValue::Arrow(ps, rt)) => {
                    let inner = bind_params(ctx, params@, ps, min_nat(ps.len(), params@.len()));
                    lemma_error_spans(rel, inner, *body);
                    let found = body.type_of();
                    let head = if spec_compatible(rel, found, Some(*rt)) {
                        Seq::empty()
                    } else {
                        error_at(TypeErrorKindValue::LambdaMismatch { found, expected: *rt }, meta.span@)
                    };
                    let rest = typecheck_errors(rel, inner, *body);
                    assert(errs == head + rest);
                    assert forall|k: int| 0 <= k < errs.len() implies has_span(e, (#[trigger] errs[k]).span) by {
                        if k >= head.len() {
                            assert(errs[k] == rest[k - head.len()]);
                        }
                    }
                },
                _ => {},
            }
        },
        Expr::App(f, xs, meta) => {
            match (*f, *xs, opt_type_value(meta.ty)) {
                (Expr::Lambda(params, body, lmeta), Expr::ArgsTuple(args, _), Some(app_t)) => {
                    let checks = match opt_type_value(lmeta.ty) {
                        Some(TypeValue::Arrow(ps, rt)) => {
                            let head = if spec_compatible(rel, Some(app_t), Some(*rt)) {
                                Seq::empty()
                            } else {
                                error_at(
                                    TypeErrorKindValue::AppMismatch { found: Some(app_t), expected: *rt },
                                    meta.span@,
                                )
                            };
                            let tail = arg_errors(rel, ps, args@, meta.span@, min_nat(ps.len(), args@.len()));
                            lemma_arg_error_spans(rel, ps, args@, meta.span@, min_nat(ps.len(), args@.len()));
                            assert forall|k: int| 0 <= k < (head + tail).len() implies (#[trigger] (head + tail)[k]).span == meta.span@ by {
                                if k >= head.len() {
                                    assert((head + tail)[k] == tail[k - head.len()]);
                                }
                            }
                            head + tail
                        },
                        Some(TypeValue::Atom(_)) => error_at(TypeErrorKindValue::ExpectedFunctionType, meta.span@),
                        None => Seq::empty(),
                    };
                    let inner = bind_args(ctx, params@, args@, min_nat(params@.len(), args@.len()));
                    lemma_error_spans(rel, inner, *body);
                    let rest = typecheck_errors(rel, inner, *body);
                    assert(errs == checks + rest);
                    assert forall|k: int| 0 <= k < errs.len() implies has_span(e, (#[trigger] errs[k]).span) by {
                        if k >= checks.len() {
                            assert(errs[k] == rest[k - checks.len()]);
                            assert(has_span(*f, errs[k].span));
                        } else {
                            assert(errs[k] == checks[k]);
                            assert(errs[k].span == meta.span@);
                        }
                    }
                },
                _ => {},
            }
        },
        _ => {},
    }
}


/// The atomic subtype relation holds of exactly the listed pairs, whatever
/// order they are listed in: each listed pair holds, and a pair holds only if
/// it is listed.
pub proof fn lemma_atom_relation_is_listed(ir: Ir, x: Seq<char>, y: Seq<char>)
    ensures
        (ir.atom_relation())(x, y) <==> exists|i: int|
            0 <= i < ir.atom_subtypes@.len() && #[trigger] ir.atom_subtypes@[i].0@ == x && ir.atom_subtypes@[i].1@ == y,
        forall|i: int| 0 <= i < ir.atom_subtypes@.len() ==> (ir.atom_relation())(
            #[trigger] ir.atom_subtypes@[i].0@,
            ir.atom_subtypes@[i].1@,
        ),
{
    assert forall|i: int| 0 <= i < ir.atom_subtypes@.len() implies (ir.atom_relation())(
        #[trigger] ir.atom_subtypes@[i].0@,
        ir.atom_subtypes@[i].1@,
    ) by {
        assert(listed_subtype(ir.atom_subtypes@, ir.atom_subtypes@[i].0@, ir.atom_subtypes@[i].1@));
    }
}

/// Two known types are compatible exactly when the first is a subtype of the
/// second; for atomic types, exactly when the IR relates the first to the
/// second. An unknown type is compatible with anything.
pub proof fn lemma_compatible_direction(
    rel: spec_fn(Seq<char>, Seq<char>) -> bool,
    a: TypeValue,
    b: TypeValue,
    x: Seq<char>,
    y: Seq<char>,
)
    ensures
        spec_compatible(rel, Some(a), Some(b)) == spec_is_subtype(rel, a, b),
        spec_compatible(rel, Some(TypeValue::Atom(x)), Some(TypeValue::Atom(y))) == rel(x, y),
        spec_compatible(rel, None, Some(b)),
        spec_compatible(rel, Some(a), None),
{
    lemma_is_subtype_unfold(rel, TypeValue::Atom(x), TypeValue::Atom(y));
}

/// Binding names in order gives each name the type of its last binding.
pub proof fn lemma_bind_params_last(
    ctx: Map<Seq<char>, TypeValue>,
    names: Seq<String>,
    tys: Seq<TypeValue>,
    n: nat,
    i: int,
)
    requires
        0 <= i < n,
        n <= names.len(),
        n <= tys.len(),
        forall|j: int| i < j < n ==> (#[trigger] names[j])@ != names[i]@,
    ensures
        bind_params(ctx, names, tys, n).contains_key(names[i]@),
        bind_params(ctx, names, tys, n)[names[i]@] == tys[i],
    decreases n,
{
    if i < n - 1 {
        lemma_bind_params_last(ctx, names, tys, (n - 1) as nat, i);
        assert(names[n - 1]@ != names[i]@);
    }
}

/// The errors of a lambda annotated with a function type end with the errors
/// of its body, checked in the context extended with its parameters.
pub proof fn lemma_lambda_checks_body(
    rel: spec_fn(Seq<char>, Seq<char>) -> bool,
    ctx: Map<Seq<char>, TypeValue>,
    params: Vec<String>,
    body: Expr,
    meta: ExprMetadata,
    ps: Seq<TypeValue>,
    rt: TypeValue,
)
    requires
        opt_type_value(meta.ty) == Some(TypeValue::Arrow(ps, Box::new(rt))),
    ensures
        exists|pre: Seq<DatamodelErrorValue>|
            typecheck_errors(rel, ctx, Expr::Lambda(params, Box::new(body), meta)) == pre + typecheck_errors(
                rel,
                bind_params(ctx, params@, ps, min_nat(ps.len(), params@.len())),
                body,
            ),
{
    let e = Expr::Lambda(params, Box::new(body), meta);
    let found = body.type_of();
    let head = if spec_compatible(rel, found, Some(rt)) {
        Seq::empty()
    } else {
        error_at(TypeErrorKindValue::LambdaMismatch { found, expected: rt }, meta.span@)
    };
    assert(typecheck_errors(rel, ctx, e) == head + typecheck_errors(
        rel,
        bind_params(ctx, params@, ps, min_nat(ps.len(), params@.len())),
        body,
    ));
}

/// A variable in a lambda's body that names a parameter of an atomic type
/// which the IR does not relate to the variable's annotated atomic type is
/// reported as a mismatch at the variable's span.
pub proof fn lemma_lambda_reports_parameter_mismatch(
    rel: spec_fn(Seq<char>, Seq<char>) -> bool,
    ctx: Map<Seq<char>, TypeValue>,
    params: Vec<String>,
    var_meta: ExprMetadata,
    meta: ExprMetadata,
    ps: Seq<TypeValue>,
    rt: TypeValue,
    i: int,
    param_atom: Seq<char>,
    var_atom: Seq<char>,
)
    requires
        opt_type_value(meta.ty) == Some(TypeValue::Arrow(ps, Box::new(rt))),
        0 <= i < ps.len(),
        i < params@.len(),
        forall|j: int| i < j < params@.len() && j < ps.len() ==> (#[trigger] params@[j])@ != params@[i]@,
        ps[i] == TypeValue::Atom(param_atom),
        opt_type_value(var_meta.ty) == Some(TypeValue::Atom(var_atom)),
        !rel(param_atom, var_atom),
    ensures
        typecheck_errors(
            rel,
            ctx,
            Expr::Lambda(params, Box::new(Expr::Var(params@[i], var_meta)), meta),
        ).contains(DatamodelErrorValue { kind: TypeErrorKindValue::Mismatch, span: var_meta.span@ }),
{
    let body = Expr::Var(params@[i], var_meta);
    let n = min_nat(ps.len(), params@.len());
    let inner = bind_params(ctx, params@, ps, n);
    lemma_bind_params_last(ctx, params@, ps, n, i);
    let err = DatamodelErrorValue { kind: TypeErrorKindValue::Mismatch, span: var_meta.span@ };
    assert(typecheck_errors(rel, inner, body) == seq![err]);
    lemma_lambda_checks_body(rel, ctx, params, body, meta, ps, rt);
    let all = typecheck_errors(rel, ctx, Expr::Lambda(params, Box::new(body), meta));
    let pre = choose|pre: Seq<DatamodelErrorValue>| all == pre + typecheck_errors(rel, inner, body);
    assert(all[pre.len() as int] == err);
}

/// `idx` lists, in increasing order, exactly the arguments among the first
/// `n` whose known type is not compatible with their parameter type, and
/// `errs` holds one `AppMismatch` at `span` for each of them, in that order,
/// naming the argument's type and the parameter type.
pub open spec fn one_error_per_mismatch(
    rel: spec_fn(Seq<char>, Seq<char>) -> bool,
    param_tys: Seq<TypeValue>,
    args: Seq<Expr>,
    span: SpanValue,
    n: nat,
    errs: Seq<DatamodelErrorValue>,
    idx: Seq<int>,
) -> bool {
    &&& idx.len() == errs.len()
    &&& forall|k: int| 0 <= k < idx.len() ==> {
        &&& 0 <= #[trigger] idx[k] < n
        &&& !spec_compatible(rel, args[idx[k]].type_of(), Some(param_tys[idx[k]]))
        &&& errs[k] == DatamodelErrorValue {
            kind: TypeErrorKindValue::AppMismatch { found: args[idx[k]].type_of(), expected: param_tys[idx[k]] },
            span,
        }
    }
    &&& forall|k: int, l: int| 0 <= k < l < idx.len() ==> #[trigger] idx[k] < #[trigger] idx[l]
    &&& forall|i: int| 0 <= i < n && !spec_compatible(rel, (#[trigger] args[i]).type_of(), Some(param_tys[i]))
        ==> exists|k: int| 0 <= k < idx.len() && #[trigger] idx[k] == i
}

/// The argument errors of an application are exactly one `AppMismatch` per
/// argument (among the first `n`) whose known type is not compatible with its
/// parameter type, in the order of the arguments, each naming that
/// argument's type and the parameter type.
pub proof fn lemma_arg_errors_one_per_mismatch(
    rel: spec_fn(Seq<char>, Seq<char>) -> bool,
    param_tys: Seq<TypeValue>,
    args: Seq<Expr>,
    span: SpanValue,
    n: nat,
)
    requires
        n <= param_tys.len(),
        n <= args.len(),
    ensures
        exists|idx: Seq<int>|
            #[trigger] one_error_per_mismatch(rel, param_tys, args, span, n, arg_errors(rel, param_tys, args, span, n), idx),
    decreases n,
{
    let errs = arg_errors(rel, param_tys, args, span, n);
    if n == 0 {
        let idx = Seq::<int>::empty();
        assert(one_error_per_mismatch(rel, param_tys, args, span, n, errs, idx));
    } else {
        lemma_arg_errors_one_per_mismatch(rel, param_tys, args, span, (n - 1) as nat);
        let before = arg_errors(rel, param_tys, args, span, (n - 1) as nat);
        let idx0 = choose|idx: Seq<int>| #[trigger] one_error_per_mismatch(rel, param_tys, args, span, (n - 1) as nat, before, idx);
        let last = n - 1;
        if spec_compatible(rel, args[last].type_of(), Some(param_tys[last])) {
            assert(errs =~= before);
            assert forall|i: int| 0 <= i < n && !spec_compatible(rel, (#[trigger] args[i]).type_of(), Some(param_tys[i]))
                implies exists|k: int| 0 <= k < idx0.len() && #[trigger] idx0[k] == i by {
                assert(i < n - 1);
            }
            assert(one_error_per_mismatch(rel, param_tys, args, span, n, errs, idx0));
        } else {
            let idx = idx0.push(last);
            let err = DatamodelErrorValue {
                kind: TypeErrorKindValue::AppMismatch { found: args[last].type_of(), expected: param_tys[last] },
                span,
            };
            assert(errs =~= before.push(err));
            assert forall|k: int| 0 <= k < idx.len() implies {
                &&& 0 <= #[trigger] idx[k] < n
                &&& !spec_compatible(rel, args[idx[k]].type_of(), Some(param_tys[idx[k]]))
                &&& errs[k] == DatamodelErrorValue {
                    kind: TypeErrorKindValue::AppMismatch {
                        found: args[idx[k]].type_of(),
                        expected: param_tys[idx[k]],
                    },
                    span,
                }
            } by {
                if k < idx0.len() {
                    assert(idx[k] == idx0[k]);
                    assert(errs[k] == before[k]);
                }
            }
            assert forall|k: int, l: int| 0 <= k < l < idx.len() implies #[trigger] idx[k] < #[trigger] idx[l] by {
                if l < idx0.len() {
                    assert(idx[k] == idx0[k] && idx[l] == idx0[l]);
                } else {
                    assert(idx[k] == idx0[k]);
                    assert(0 <= idx0[k] < n - 1);
                }
            }
            assert forall|i: int| 0 <= i < n && !spec_compatible(rel, (#[trigger] args[i]).type_of(), Some(param_tys[i]))
                implies exists|k: int| 0 <= k < idx.len() && #[trigger] idx[k] == i by {
                if i < n - 1 {
                    let k = choose|k: int| 0 <= k < idx0.len() && #[trigger] idx0[k] == i;
                    assert(idx[k] == idx0[k]);
                } else {
                    assert(idx[idx.len() - 1] == i);
                }
            }
            assert(one_error_per_mismatch(rel, param_tys, args, span, n, errs, idx));
        }
    }
}

/// The errors of an application of a lambda annotated with a function type
/// to an argument tuple, itself annotated with a type, hold the argument
/// errors: one per mismatched argument, as
/// [`lemma_arg_errors_one_per_mismatch`] describes.
pub proof fn lemma_app_reports_arguments(
    rel: spec_fn(Seq<char>, Seq<char>) -> bool,
    ctx: Map<Seq<char>, TypeValue>,
    params: Vec<String>,
    body: Expr,
    lambda_meta: ExprMetadata,
    args: Vec<Expr>,
    tuple_meta: ExprMetadata,
    meta: ExprMetadata,
    ps: Seq<TypeValue>,
    rt: TypeValue,
    app_t: TypeValue,
)
    requires
        opt_type_value(lambda_meta.ty) == Some(TypeValue::Arrow(ps, Box::new(rt))),
        opt_type_value(meta.ty) == Some(app_t),
    ensures
        exists|pre: Seq<DatamodelErrorValue>, post: Seq<DatamodelErrorValue>|
            typecheck_errors(
                rel,
                ctx,
                Expr::App(
                    Box::new(Expr::Lambda(params, Box::new(body), lambda_meta)),
                    Box::new(Expr::ArgsTuple(args, tuple_meta)),
                    meta,
                ),
            ) == pre + arg_errors(rel, ps, args@, meta.span@, min_nat(ps.len(), args@.len())) + post,
{
    let head = if spec_compatible(rel, Some(app_t), Some(rt)) {
        Seq::empty()
    } else {
        error_at(TypeErrorKindValue::AppMismatch { found: Some(app_t), expected: rt }, meta.span@)
    };
    let tail = arg_errors(rel, ps, args@, meta.span@, min_nat(ps.len(), args@.len()));
    let inner = bind_args(ctx, params@, args@, min_nat(params@.len(), args@.len()));
    let rest = typecheck_errors(rel, inner, body);
    let e = Expr::App(
        Box::new(Expr::Lambda(params, Box::new(body), lambda_meta)),
        Box::new(Expr::ArgsTuple(args, tuple_meta)),
        meta,
    );
    assert(typecheck_errors(rel, ctx, e) == (head + tail) + rest);
    assert(typecheck_errors(rel, ctx, e) == head + tail + rest);
}

} // verus!
