use baml_language_server::{
    compatible_as_subtype, is_subtype, typecheck_exprs, typecheck_in_context, ArrowType,
    Diagnostics, Expr, ExprFunction, ExprMetadata, ExprType, Ir, Span, TypeErrorKind,
    TypingContext,
};

fn span(start: usize, end: usize) -> Span {
    Span { file: "file:///project/baml_src/main.baml".to_string(), start, end }
}

fn meta(start: usize, end: usize, ty: Option<ExprType>) -> ExprMetadata {
    ExprMetadata { span: span(start, end), ty }
}

fn atom(name: &str) -> ExprType {
    ExprType::Atom(name.to_string())
}

fn arrow(params: Vec<ExprType>, body: ExprType) -> ExprType {
    ExprType::Arrow(Box::new(ArrowType { param_types: params, body_type: body }))
}

fn var(name: &str, ty: Option<ExprType>) -> Expr {
    Expr::Var(name.to_string(), meta(10, 11, ty))
}

fn lambda(params: &[&str], body: Expr, ty: Option<ExprType>) -> Expr {
    Expr::Lambda(params.iter().map(|p| p.to_string()).collect(), Box::new(body), meta(0, 20, ty))
}

fn ir_with(pairs: &[(&str, &str)], expr_fns: Vec<ExprFunction>) -> Ir {
    Ir {
        atom_subtypes: pairs.iter().map(|(a, b)| (a.to_string(), b.to_string())).collect(),
        expr_fns,
    }
}

fn reflexive_ir() -> Ir {
    ir_with(&[("int", "int"), ("string", "string"), ("bool", "bool")], vec![])
}

/// `fn First(x: int, y: int) -> string { x }`: the body is an `int` where a
/// `string` is declared.
#[test]
fn null_case() {
    let body = var("x", Some(atom("int")));
    let first = lambda(
        &["x", "y"],
        body,
        Some(arrow(vec![atom("int"), atom("int")], atom("string"))),
    );
    let ir = ir_with(
        &[("int", "int"), ("string", "string")],
        vec![ExprFunction { name: "First".to_string(), expr: first }],
    );
    let mut diagnostics = Diagnostics::new();
    typecheck_exprs(&ir, &mut diagnostics);
    assert!(diagnostics.has_errors());
}

#[test]
fn lambda_mismatch_is_reported_once_with_types() {
    let first = lambda(
        &["x", "y"],
        var("x", Some(atom("int"))),
        Some(arrow(vec![atom("int"), atom("int")], atom("string"))),
    );
    let ir = reflexive_ir();
    let mut diagnostics = Diagnostics::new();
    typecheck_in_context(&ir, &mut diagnostics, &TypingContext::new(), &first);
    let errors = diagnostics.errors();
    assert_eq!(errors.len(), 1);
    match &errors[0].kind {
        TypeErrorKind::LambdaMismatch { found: Some(ExprType::Atom(f)), expected: ExprType::Atom(e) } => {
            assert_eq!(f, "int");
            assert_eq!(e, "string");
        },
        other => panic!("unexpected error {:?}", other),
    }
    assert_eq!(errors[0].span.start, 0);
    assert_eq!(errors[0].span.end, 20);
}

#[test]
fn well_typed_lambda_has_no_errors() {
    let id = lambda(&["x"], var("x", Some(atom("int"))), Some(arrow(vec![atom("int")], atom("int"))));
    let ir = reflexive_ir();
    let mut diagnostics = Diagnostics::new();
    typecheck_in_context(&ir, &mut diagnostics, &TypingContext::new(), &id);
    assert!(!diagnostics.has_errors());
}

#[test]
fn variable_mismatch_against_context() {
    let name = "x".to_string();
    let ty = atom("int");
    let mut ctx = TypingContext::new();
    ctx.insert(&name, &ty);
    let ir = reflexive_ir();
    let mut diagnostics = Diagnostics::new();
    typecheck_in_context(&ir, &mut diagnostics, &ctx, &var("x", Some(atom("string"))));
    assert_eq!(diagnostics.errors().len(), 1);
    assert!(matches!(diagnostics.errors()[0].kind, TypeErrorKind::Mismatch));
    assert_eq!(diagnostics.errors()[0].span.start, 10);
}

#[test]
fn variable_subtype_is_accepted() {
    let name = "x".to_string();
    let ty = atom("int");
    let mut ctx = TypingContext::new();
    ctx.insert(&name, &ty);
    let ir = ir_with(&[("int", "float")], vec![]);
    let mut diagnostics = Diagnostics::new();
    typecheck_in_context(&ir, &mut diagnostics, &ctx, &var("x", Some(atom("float"))));
    assert!(!diagnostics.has_errors());
}

#[test]
fn unbound_or_unannotated_variables_are_accepted() {
    let ir = reflexive_ir();
    let mut diagnostics = Diagnostics::new();
    typecheck_in_context(&ir, &mut diagnostics, &TypingContext::new(), &var("x", Some(atom("int"))));
    let name = "x".to_string();
    let ty = atom("int");
    let mut ctx = TypingContext::new();
    ctx.insert(&name, &ty);
    typecheck_in_context(&ir, &mut diagnostics, &ctx, &var("x", None));
    assert!(!diagnostics.has_errors());
}

#[test]
fn later_binding_hides_earlier_one() {
    let name = "x".to_string();
    let first = atom("int");
    let second = atom("string");
    let mut ctx = TypingContext::new();
    ctx.insert(&name, &first);
    ctx.insert(&name, &second);
    match ctx.get(&name) {
        Some(ExprType::Atom(t)) => assert_eq!(t, "string"),
        other => panic!("unexpected binding {:?}", other),
    }
    assert!(ctx.get(&"y".to_string()).is_none());
    let copy = ctx.duplicate();
    assert!(matches!(copy.get(&name), Some(ExprType::Atom(t)) if t == "string"));
}

#[test]
fn lambda_parameters_shadow_the_context() {
    // The outer context says x: string, the lambda binds x: int.
    let name = "x".to_string();
    let outer = atom("string");
    let mut ctx = TypingContext::new();
    ctx.insert(&name, &outer);
    let f = lambda(&["x"], var("x", Some(atom("int"))), Some(arrow(vec![atom("int")], atom("int"))));
    let ir = reflexive_ir();
    let mut diagnostics = Diagnostics::new();
    typecheck_in_context(&ir, &mut diagnostics, &ctx, &f);
    assert!(!diagnostics.has_errors());
}

fn app(f: Expr, args: Vec<Expr>, ty: Option<ExprType>) -> Expr {
    Expr::App(
        Box::new(f),
        Box::new(Expr::ArgsTuple(args, meta(30, 40, None))),
        meta(0, 50, ty),
    )
}

fn literal(ty: &str) -> Expr {
    Expr::Atom(meta(31, 32, Some(atom(ty))))
}

#[test]
fn application_checks_result_and_arguments() {
    // (\(x, y) -> x : (int, int) -> int) ("a", 1) : string
    let f = lambda(&["x", "y"], var("x", Some(atom("int"))), Some(arrow(vec![atom("int"), atom("int")], atom("int"))));
    let e = app(f, vec![literal("string"), literal("int")], Some(atom("string")));
    let ir = reflexive_ir();
    let mut diagnostics = Diagnostics::new();
    typecheck_in_context(&ir, &mut diagnostics, &TypingContext::new(), &e);
    let errors = diagnostics.errors();
    // Result mismatch, then the first argument; inside the body x is bound
    // to the argument's type string, which is not int.
    assert_eq!(errors.len(), 3);
    match &errors[0].kind {
        TypeErrorKind::AppMismatch { found: Some(ExprType::Atom(f)), expected: ExprType::Atom(e) } => {
            assert_eq!(f, "string");
            assert_eq!(e, "int");
        },
        other => panic!("unexpected error {:?}", other),
    }
    match &errors[1].kind {
        TypeErrorKind::AppMismatch { found: Some(ExprType::Atom(f)), expected: ExprType::Atom(e) } => {
            assert_eq!(f, "string");
            assert_eq!(e, "int");
        },
        other => panic!("unexpected error {:?}", other),
    }
    assert!(matches!(errors[2].kind, TypeErrorKind::Mismatch));
    assert_eq!(errors[0].span.start, 0);
    assert_eq!(errors[1].span.end, 50);
}

#[test]
fn application_of_non_function_type() {
    let f = lambda(&["x"], var("x", None), Some(atom("int")));
    let e = app(f, vec![literal("int")], Some(atom("int")));
    let ir = reflexive_ir();
    let mut diagnostics = Diagnostics::new();
    typecheck_in_context(&ir, &mut diagnostics, &TypingContext::new(), &e);
    assert_eq!(diagnostics.errors().len(), 1);
    assert!(matches!(diagnostics.errors()[0].kind, TypeErrorKind::ExpectedFunctionType));
}

#[test]
fn unannotated_application_is_not_checked() {
    let f = lambda(&["x"], var("x", Some(atom("string"))), Some(arrow(vec![atom("int")], atom("int"))));
    let e = app(f, vec![literal("int")], None);
    let ir = reflexive_ir();
    let mut diagnostics = Diagnostics::new();
    typecheck_in_context(&ir, &mut diagnostics, &TypingContext::new(), &e);
    assert!(!diagnostics.has_errors());
}

#[test]
fn other_expressions_report_nothing() {
    let ir = reflexive_ir();
    let mut diagnostics = Diagnostics::new();
    let exprs = vec![
        literal("int"),
        Expr::LLMFunction("Extract".to_string(), vec!["text".to_string()], meta(0, 1, Some(atom("int")))),
        Expr::Let(
            "x".to_string(),
            Box::new(literal("int")),
            Box::new(var("x", Some(atom("string")))),
            meta(0, 1, None),
        ),
        Expr::ArgsTuple(vec![literal("int")], meta(0, 1, None)),
    ];
    for e in &exprs {
        typecheck_in_context(&ir, &mut diagnostics, &TypingContext::new(), e);
    }
    assert!(!diagnostics.has_errors());
}

#[test]
fn errors_are_appended_after_earlier_ones() {
    let ir = ir_with(
        &[("int", "int"), ("string", "string")],
        vec![
            ExprFunction {
                name: "A".to_string(),
                expr: lambda(&[], literal("int"), Some(arrow(vec![], atom("string")))),
            },
            ExprFunction {
                name: "B".to_string(),
                expr: lambda(&[], literal("string"), Some(arrow(vec![], atom("int")))),
            },
        ],
    );
    let mut diagnostics = Diagnostics::new();
    typecheck_exprs(&ir, &mut diagnostics);
    typecheck_exprs(&ir, &mut diagnostics);
    let errors = diagnostics.errors();
    assert_eq!(errors.len(), 4);
    for (i, expected) in ["string", "int", "string", "int"].iter().enumerate() {
        match &errors[i].kind {
            TypeErrorKind::LambdaMismatch { expected: ExprType::Atom(e), .. } => assert_eq!(e, expected),
            other => panic!("unexpected error {:?}", other),
        }
    }
}

#[test]
fn subtyping_of_atoms_follows_the_ir() {
    let ir = ir_with(&[("int", "float")], vec![]);
    assert!(is_subtype(&ir, &atom("int"), &atom("float")));
    assert!(!is_subtype(&ir, &atom("float"), &atom("int")));
    assert!(!is_subtype(&ir, &atom("int"), &arrow(vec![], atom("int"))));
    assert!(ir.is_subtype(&"int".to_string(), &"float".to_string()));
    assert!(!ir.is_subtype(&"int".to_string(), &"int".to_string()));
}

#[test]
fn function_subtyping_is_contravariant_in_parameters() {
    let ir = ir_with(&[("int", "float"), ("int", "int"), ("float", "float")], vec![]);
    // (float) -> int  <:  (int) -> float
    let a = arrow(vec![atom("float")], atom("int"));
    let b = arrow(vec![atom("int")], atom("float"));
    assert!(is_subtype(&ir, &a, &b));
    assert!(!is_subtype(&ir, &b, &a));
    // Parameters are compared only up to the shorter list.
    let c = arrow(vec![atom("float"), atom("string")], atom("int"));
    assert!(is_subtype(&ir, &c, &b));
}

#[test]
fn subtyping_is_reflexive_for_a_reflexive_ir() {
    let ir = reflexive_ir();
    let t = arrow(vec![arrow(vec![atom("int")], atom("bool")), atom("string")], atom("int"));
    assert!(is_subtype(&ir, &t, &t));
}

#[test]
fn unknown_types_are_compatible() {
    let ir = reflexive_ir();
    assert!(compatible_as_subtype(&ir, &None, &Some(atom("int"))));
    assert!(compatible_as_subtype(&ir, &Some(atom("int")), &None));
    assert!(compatible_as_subtype(&ir, &None, &None));
    assert!(!compatible_as_subtype(&ir, &Some(atom("int")), &Some(atom("string"))));
    assert!(compatible_as_subtype(&ir, &Some(atom("int")), &Some(atom("int"))));
}

#[test]
fn copies_of_types_are_equal_in_shape() {
    let t = arrow(vec![atom("int"), arrow(vec![], atom("bool"))], atom("string"));
    let c = t.duplicate();
    assert_eq!(format!("{:?}", t), format!("{:?}", c));
}
