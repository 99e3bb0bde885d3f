use vstd::prelude::*;

use crate::expr::{opt_type_value, ExprType, Span, SpanValue, TypeValue};

verus! {

/// What went wrong in a type check.
#[derive(Debug)]
pub enum TypeErrorKind {
    /// A variable's annotated type is not a supertype of its type in the context.
    Mismatch,
    /// A lambda's body does not have the lambda's declared result type.
    LambdaMismatch { found: Option<ExprType>, expected: ExprType },
    /// An application's result or an argument does not have the expected type.
    AppMismatch { found: Option<ExprType>, expected: ExprType },
    /// A function in an application is annotated with a non-function type.
    ExpectedFunctionType,
}

/// The value of a [`TypeErrorKind`].
pub enum TypeErrorKindValue {
    Mismatch,
    LambdaMismatch { found: Option<TypeValue>, expected: TypeValue },
    AppMismatch { found: Option<TypeValue>, expected: TypeValue },
    ExpectedFunctionType,
}

impl View for TypeErrorKind {
    type V = TypeErrorKindValue;

    open spec fn view(&self) -> TypeErrorKindValue {
        match *self {
            TypeErrorKind::Mismatch => TypeErrorKindValue::Mismatch,
            TypeErrorKind::LambdaMismatch { found, expected } => TypeErrorKindValue::LambdaMismatch {
                found: opt_type_value(found),
                expected: expected@,
            },
            TypeErrorKind::AppMismatch { found, expected } => TypeErrorKindValue::AppMismatch {
                found: opt_type_value(found),
                expected: expected@,
            },
            TypeErrorKind::ExpectedFunctionType => TypeErrorKindValue::ExpectedFunctionType,
        }
    }
}

/// A validation error at a place in the source.
#[derive(Debug)]
pub struct DatamodelError {
    pub kind: TypeErrorKind,
    pub span: Span,
}

/// The value of a [`DatamodelError`].
pub struct DatamodelErrorValue {
    pub kind: TypeErrorKindValue,
    pub span: SpanValue,
}

impl View for DatamodelError {
    type V = DatamodelErrorValue;

    open spec fn view(&self) -> DatamodelErrorValue {
        DatamodelErrorValue { kind: self.kind@, span: self.span@ }
    }
}

/// The errors found so far, in the order in which they were found.
#[derive(Debug)]
pub struct Diagnostics {
    errors: Vec<DatamodelError>,
}

impl View for Diagnostics {
    type V = Seq<DatamodelErrorValue>;

    closed spec fn view(&self) -> Seq<DatamodelErrorValue> {
        self.errors@.map_values(|e: DatamodelError| e@)
    }
}

impl Diagnostics {
    /// No errors.
    pub fn new() -> (d: Diagnostics)
        ensures
            d@ == Seq::<DatamodelErrorValue>::empty(),
    {
        let d = Diagnostics { errors: Vec::new() };
        assert(d@ =~= Seq::<DatamodelErrorValue>::empty());
        d
    }

    /// Records an error after those found so far.
    pub fn push_error(&mut self, error: DatamodelError)
        ensures
            final(self)@ == old(self)@.push(error@),
    {
        let ghost e = error@;
        self.errors.push(error);
        assert(self@ =~= old(self)@.push(e));
    }

    /// Whether any error was found.
    pub fn has_errors(&self) -> (r: bool)
        ensures
            r == (self@.len() > 0),
    {
        self.errors.len() > 0
    }

    /// The errors found, in order.
    pub fn errors(&self) -> (r: &Vec<DatamodelError>)
        ensures
            r@.map_values(|e: DatamodelError| e@) == self@,
    {
        &self.errors
    }
}

} // verus!
