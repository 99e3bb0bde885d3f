use vstd::prelude::*;

verus! {

/// The type of an expression: an atomic field type, named by the type's
/// name, or a function type.
#[derive(Debug)]
pub enum ExprType {
    Atom(String),
    Arrow(Box<ArrowType>),
}

/// A function type: the types of its parameters and the type of its body.
#[derive(Debug)]
pub struct ArrowType {
    pub param_types: Vec<ExprType>,
    pub body_type: ExprType,
}

/// The mathematical value of an [`ExprType`].
pub enum TypeValue {
    Atom(Seq<char>),
    Arrow(Seq<TypeValue>, Box<TypeValue>),
}

/// The value of a type.
pub open spec fn type_value(t: ExprType) -> TypeValue
    decreases t, 0nat,
{
    match t {
        ExprType::Atom(name) => TypeValue::Atom(name@),
        ExprType::Arrow(a) => TypeValue::Arrow(
            types_value(a.param_types@),
            Box::new(type_value(a.body_type)),
        ),
    }
}

/// The values of a sequence of types.
pub open spec fn types_value(s: Seq<ExprType>) -> Seq<TypeValue>
    decreases s, s.len(),
{
    if s.len() == 0 {
        Seq::empty()
    } else {
        types_value(s.drop_last()).push(type_value(s.last()))
    }
}

impl View for ExprType {
    type V = TypeValue;

    open spec fn view(&self) -> TypeValue {
        type_value(*self)
    }
}

/// The value of an optional type.
pub open spec fn opt_type_value(t: Option<ExprType>) -> Option<TypeValue> {
    match t {
        Some(t) => Some(t@),
        None => None,
    }
}


/// `types_value` maps each type to its value, one for one.
pub proof fn lemma_types_value_index(s: Seq<ExprType>)
    ensures
        types_value(s).len() == s.len(),
        forall|i: int| 0 <= i < s.len() ==> #[trigger] types_value(s)[i] == type_value(s[i]),
    decreases s.len(),
{
    if s.len() > 0 {
        lemma_types_value_index(s.drop_last());
        assert forall|i: int| 0 <= i < s.len() implies #[trigger] types_value(s)[i] == type_value(s[i]) by {
            if i < s.len() - 1 {
                assert(s.drop_last()[i] == s[i]);
            }
        }
    }
}

/// A parameter type of a function type is smaller than the function type.
pub proof fn lemma_param_type_decreases(t: ExprType, i: int)
    requires
        t is Arrow,
        0 <= i < t->Arrow_0.param_types@.len(),
    ensures
        decreases_to!(t => t->Arrow_0.param_types@[i]),
{
    let ps = t->Arrow_0.param_types;
    let inner: ArrowType = *t->Arrow_0;
    assert(decreases_to!(t => inner));
    assert(decreases_to!(inner => ps));
    assert(decreases_to!(ps => ps@)) by {
        broadcast use vstd::std_specs::vec::axiom_vec_decreases_to_view;
    }
    assert(decreases_to!(ps@ => ps@[i]));
}

impl ExprType {
    /// A deep copy of the type.
    pub fn duplicate(&self) -> (r: ExprType)
        ensures
            r@ == self@,
        decreases self,
    {
        match self {
            ExprType::Atom(name) => ExprType::Atom(name.clone()),
            ExprType::Arrow(arrow) => {
                let mut params: Vec<ExprType> = Vec::new();
                let n = arrow.param_types.len();
                for i in 0..n
                    invariant
                        *self == ExprType::Arrow(*arrow),
                        n == arrow.param_types@.len(),
                        params@.len() == i,
                        forall|j: int| 0 <= j < i ==> #[trigger] type_value(params@[j]) == type_value(arrow.param_types@[j]),
                {
                    proof {
                        lemma_param_type_decreases(*self, i as int);
                    }
                    let p = arrow.param_types[i].duplicate();
                    params.push(p);
                }
                let body = arrow.body_type.duplicate();
                proof {
                    lemma_types_value_index(params@);
                    lemma_types_value_index(arrow.param_types@);
                    assert(types_value(params@) =~= types_value(arrow.param_types@));
                }
                ExprType::Arrow(Box::new(ArrowType { param_types: params, body_type: body }))
            },
        }
    }
}


/// A region of a source file.
#[derive(Debug)]
pub struct Span {
    pub file: String,
    pub start: usize,
    pub end: usize,
}

/// The value of a [`Span`]: the file's name, the start and the end.
pub type SpanValue = (Seq<char>, usize, usize);

impl View for Span {
    type V = SpanValue;

    open spec fn view(&self) -> SpanValue {
        (self.file@, self.start, self.end)
    }
}

impl Span {
    /// A copy of the span.
    pub fn duplicate(&self) -> (r: Span)
        ensures
            r@ == self@,
    {
        Span { file: self.file.clone(), start: self.start, end: self.end }
    }
}

/// What the type annotator attached to an expression: where it stands and,
/// when known, its type.
#[derive(Debug)]
pub struct ExprMetadata {
    pub span: Span,
    pub ty: Option<ExprType>,
}

/// An expression of BAML's expression language, with its metadata.
#[derive(Debug)]
pub enum Expr {
    /// A literal value.
    Atom(ExprMetadata),
    /// A reference to an LLM function, with its argument names.
    LLMFunction(String, Vec<String>, ExprMetadata),
    /// A variable.
    Var(String, ExprMetadata),
    /// A function with the given parameter names and body.
    Lambda(Vec<String>, Box<Expr>, ExprMetadata),
    /// An application of a function to an argument tuple.
    App(Box<Expr>, Box<Expr>, ExprMetadata),
    /// `let name = value in body`.
    Let(String, Box<Expr>, Box<Expr>, ExprMetadata),
    /// A tuple of arguments.
    ArgsTuple(Vec<Expr>, ExprMetadata),
}

impl Expr {
    /// The metadata of the expression.
    pub open spec fn spec_meta(&self) -> ExprMetadata {
        match *self {
            Expr::Atom(m) => m,
            Expr::LLMFunction(_, _, m) => m,
            Expr::Var(_, m) => m,
            Expr::Lambda(_, _, m) => m,
            Expr::App(_, _, m) => m,
            Expr::Let(_, _, _, m) => m,
            Expr::ArgsTuple(_, m) => m,
        }
    }

    /// The value of the type that the metadata records, if any.
    pub open spec fn type_of(&self) -> Option<TypeValue> {
        opt_type_value(self.spec_meta().ty)
    }

    /// The metadata of the expression.
    pub fn meta(&self) -> (m: &ExprMetadata)
        ensures
            *m == self.spec_meta(),
    {
        match self {
            Expr::Atom(m) => m,
            Expr::LLMFunction(_, _, m) => m,
            Expr::Var(_, m) => m,
            Expr::Lambda(_, _, m) => m,
            Expr::App(_, _, m) => m,
            Expr::Let(_, _, _, m) => m,
            Expr::ArgsTuple(_, m) => m,
        }
    }
}

/// A copy of an optional type.
pub fn duplicate_opt_type(t: &Option<ExprType>) -> (r: Option<ExprType>)
    ensures
        opt_type_value(r) == opt_type_value(*t),
{
    match t {
        Some(t) => Some(t.duplicate()),
        None => None,
    }
}

} // verus!
