//! Core logic of the BAML language server and expression type checker.
mod code_lens;
mod context;
mod diagnostics;
mod edit;
mod expr;
mod lsp;
mod paths;
mod requests;
mod text;
mod typecheck;
mod validation;

pub use context::TypingContext;
pub use expr::{ArrowType, Expr, ExprMetadata, ExprType, Span, TypeValue};
pub use typecheck::{compatible_as_subtype, is_subtype, typecheck_exprs, typecheck_in_context, ExprFunction, Ir};
pub use validation::{DatamodelError, Diagnostics, TypeErrorKind};
pub use paths::{ensure_absolute, ensure_absolute_with_separator, is_within_root};
pub use edit::{DocumentKey, DocumentKeyError, PositionEncoding};
pub use diagnostics::{
    matches_target, matches_target_with_separator, select_target_diagnostics, span_document_url,
    span_document_url_with_separator,
    select_target_diagnostics_with_separator, BamlDiagnostic, SelectedDiagnostic, Severity,
};
pub use lsp::{Position, Range};
pub use code_lens::{CodeLens, FunctionSummary, Lens, LensTarget, TestCaseSummary, WasmSpan};
pub use requests::{Completion, DidCloseTextDocument, DidSaveTextDocument, Hover, HoverDocument};
