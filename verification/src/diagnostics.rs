use vstd::prelude::*;

use crate::expr::Span;
use crate::edit::{file_path_url, url_from_file_path, DocumentKeyError};
use crate::paths::{
    ensure_absolute_with_separator, is_platform_separator, main_separator, path_eq, same_path,
    spec_ensure_absolute,
};
use crate::text::{spec_strip_prefix, strip_prefix};

verus! {

/// How grave a diagnostic is.
#[derive(Debug, Copy, Clone, PartialEq, Eq, Structural)]
pub enum Severity {
    Error,
    Warning,
}

/// A diagnostic of the BAML compiler: where it points and what it says. The
/// span's file is the text of the source file's `file://` URL.
#[derive(Debug)]
pub struct BamlDiagnostic {
    pub span: Span,
    pub message: String,
}

/// A diagnostic chosen for publication: its severity and its index among the
/// compiler's errors (for [`Severity::Error`]) or warnings.
#[derive(Debug, Copy, Clone, PartialEq, Eq, Structural)]
pub struct SelectedDiagnostic {
    pub severity: Severity,
    pub index: usize,
}

/// Whether a span in the file `span_file` points into the document whose URL
/// has the path `target_path`, in the project rooted at `project_root`, with
/// the path separator `separator`: the span's file must be a `file://` URL
/// whose path, made absolute in the project, is the same path as the target.
pub open spec fn spec_matches_target(
    project_root: Seq<char>,
    target_path: Seq<char>,
    span_file: Seq<char>,
    separator: Seq<char>,
) -> bool {
    match spec_strip_prefix(span_file, "file://"@) {
        Some(span_path) => same_path(target_path, spec_ensure_absolute(project_root, span_path, separator)),
        None => false,
    }
}

/// Whether `span` points into the document whose URL has the path
/// `target_path`, given the platform's path separator `separator`.
pub fn matches_target_with_separator(project_root: &str, target_path: &str, span: &Span, separator: &str) -> (r: bool)
    ensures
        r == spec_matches_target(project_root@, target_path@, span.file@, separator@),
{
    match strip_prefix(span.file.as_str(), "file://") {
        Some(span_path) => {
            let absolute = ensure_absolute_with_separator(project_root, span_path, separator);
            path_eq(target_path, absolute.as_str())
        },
        None => false,
    }
}

/// Whether `span` points into the document whose URL has the path
/// `target_path`: its file must be a `file://` URL whose path, made absolute
/// in the project, is the same path as the target.
pub fn matches_target(project_root: &str, target_path: &str, span: &Span) -> (r: bool)
    ensures
        exists|separator: Seq<char>|
            is_platform_separator(separator) && r == spec_matches_target(project_root@, target_path@, span.file@, separator),
{
    let separator = main_separator();
    matches_target_with_separator(project_root, target_path, span, separator)
}

/// The first `n` diagnostics of `items` that point into the target document,
/// each with `severity` and its index, in order.
pub open spec fn selected(
    project_root: Seq<char>,
    target_path: Seq<char>,
    separator: Seq<char>,
    items: Seq<BamlDiagnostic>,
    severity: Severity,
    n: nat,
) -> Seq<SelectedDiagnostic>
    decreases n,
{
    if n == 0 {
        Seq::empty()
    } else {
        let before = selected(project_root, target_path, separator, items, severity, (n - 1) as nat);
        if spec_matches_target(project_root, target_path, items[n - 1].span.file@, separator) {
            before.push(SelectedDiagnostic { severity, index: (n - 1) as usize })
        } else {
            before
        }
    }
}

/// Appends to `out` the diagnostics of `items` that point into the target
/// document, with `severity`.
fn select_into(
    project_root: &str,
    target_path: &str,
    separator: &str,
    items: &Vec<BamlDiagnostic>,
    severity: Severity,
    out: &mut Vec<SelectedDiagnostic>,
)
    ensures
        final(out)@ == old(out)@ + selected(
            project_root@,
            target_path@,
            separator@,
            items@,
            severity,
            items@.len(),
        ),
{
    let ghost start = out@;
    let n = items.len();
    for i in 0..n
        invariant
            n == items@.len(),
            out@ == start + selected(project_root@, target_path@, separator@, items@, severity, i as nat),
    {
        if matches_target_with_separator(project_root, target_path, &items[i].span, separator) {
            out.push(SelectedDiagnostic { severity, index: i });
        }
        assert(out@ =~= start + selected(project_root@, target_path@, separator@, items@, severity, (i + 1) as nat));
    }
}

/// The compiler's diagnostics to publish for the document whose URL has the
/// path `target_path`, given the platform's path separator `separator`: the
/// errors that point into it, then the warnings that point into it, each in
/// the compiler's order.
pub fn select_target_diagnostics_with_separator(
    project_root: &str,
    target_path: &str,
    errors: &Vec<BamlDiagnostic>,
    warnings: &Vec<BamlDiagnostic>,
    separator: &str,
) -> (r: Vec<SelectedDiagnostic>)
    ensures
        r@ == selected(project_root@, target_path@, separator@, errors@, Severity::Error, errors@.len())
            + selected(project_root@, target_path@, separator@, warnings@, Severity::Warning, warnings@.len()),
{
    let mut out: Vec<SelectedDiagnostic> = Vec::new();
    select_into(project_root, target_path, separator, errors, Severity::Error, &mut out);
    select_into(project_root, target_path, separator, warnings, Severity::Warning, &mut out);
    assert(out@ =~= selected(project_root@, target_path@, separator@, errors@, Severity::Error, errors@.len())
        + selected(project_root@, target_path@, separator@, warnings@, Severity::Warning, warnings@.len()));
    out
}

/// The compiler's diagnostics to publish for the document whose URL has the
/// path `target_path`: the errors that point into it, then the warnings that
/// point into it, each in the compiler's order.
pub fn select_target_diagnostics(
    project_root: &str,
    target_path: &str,
    errors: &Vec<BamlDiagnostic>,
    warnings: &Vec<BamlDiagnostic>,
) -> (r: Vec<SelectedDiagnostic>)
    ensures
        exists|separator: Seq<char>| is_platform_separator(separator) && r@ == selected(
            project_root@,
            target_path@,
            separator,
            errors@,
            Severity::Error,
            errors@.len(),
        ) + selected(project_root@, target_path@, separator, warnings@, Severity::Warning, warnings@.len()),
{
    let separator = main_separator();
    select_target_diagnostics_with_separator(project_root, target_path, errors, warnings, separator)
}


/// Only diagnostics that point into the target document are published, and
/// all of them are: each chosen entry keeps the given severity and the index
/// of a diagnostic that points into the target, the indices increase, and
/// every diagnostic among the first `n` that points into the target is
/// chosen.
pub proof fn lemma_selected(
    project_root: Seq<char>,
    target_path: Seq<char>,
    separator: Seq<char>,
    items: Seq<BamlDiagnostic>,
    severity: Severity,
    n: nat,
)
    requires
        n <= items.len(),
        n <= usize::MAX,
    ensures
        ({
            let sel = selected(project_root, target_path, separator, items, severity, n);
            &&& forall|k: int| 0 <= k < sel.len() ==> {
                &&& (#[trigger] sel[k]).severity == severity
                &&& sel[k].index < n
                &&& spec_matches_target(project_root, target_path, items[sel[k].index as int].span.file@, separator)
            }
            &&& forall|k: int, l: int| 0 <= k < l < sel.len() ==> (#[trigger] sel[k]).index < (#[trigger] sel[l]).index
            &&& forall|i: int| 0 <= i < n && spec_matches_target(project_root, target_path, #[trigger] items[i].span.file@, separator)
                ==> exists|k: int| 0 <= k < sel.len() && (#[trigger] sel[k]).index == i
        }),
    decreases n,
{
    if n > 0 {
        lemma_selected(project_root, target_path, separator, items, severity, (n - 1) as nat);
        let before = selected(project_root, target_path, separator, items, severity, (n - 1) as nat);
        let sel = selected(project_root, target_path, separator, items, severity, n);
        assert forall|i: int| 0 <= i < n && spec_matches_target(project_root, target_path, #[trigger] items[i].span.file@, separator)
            implies exists|k: int| 0 <= k < sel.len() && (#[trigger] sel[k]).index == i by {
            if i < n - 1 {
                let k = choose|k: int| 0 <= k < before.len() && (#[trigger] before[k]).index == i;
                assert(sel[k] == before[k]);
            } else {
                assert(sel[sel.len() - 1].index == i);
            }
        }
    }
}


/// The URL of the document that a span's file points to, given the
/// platform's path separator `separator`, for a span that points into the
/// document whose URL has the path `target_path`: none for any other span
/// (including one whose file is no `file://` URL); else the `file://` URL of
/// the span's path made absolute in the project, or the error that the path
/// could not be converted.
pub fn span_document_url_with_separator(
    project_root: &str,
    target_path: &str,
    span_file: &str,
    separator: &str,
) -> (r: Option<Result<String, DocumentKeyError>>)
    ensures
        !spec_matches_target(project_root@, target_path@, span_file@, separator@) ==> r is None,
        spec_matches_target(project_root@, target_path@, span_file@, separator@) ==> match spec_strip_prefix(
            span_file@,
            "file://"@,
        ) {
            None => false,
            Some(p) => match file_path_url(spec_ensure_absolute(project_root@, p, separator@)) {
                Some(u) => r matches Some(Ok(s)) && s@ == u,
                None => r == Some(Err::<String, DocumentKeyError>(DocumentKeyError::PathToUrl)),
            },
        },
{
    match strip_prefix(span_file, "file://") {
        None => None,
        Some(span_path) => {
            let absolute = ensure_absolute_with_separator(project_root, span_path, separator);
            if !path_eq(target_path, absolute.as_str()) {
                return None;
            }
            match url_from_file_path(absolute.as_str()) {
                Some(u) => Some(Ok(u)),
                None => Some(Err(DocumentKeyError::PathToUrl)),
            }
        },
    }
}

/// The URL of the document that a span's file points to, for a span that
/// points into the document whose URL has the path `target_path`: none for
/// any other span; else the `file://` URL of the span's path made absolute in
/// the project, or the error that the path could not be converted.
pub fn span_document_url(project_root: &str, target_path: &str, span_file: &str) -> (r: Option<
    Result<String, DocumentKeyError>,
>)
    ensures
        exists|separator: Seq<char>| {
            &&& is_platform_separator(separator)
            &&& !spec_matches_target(project_root@, target_path@, span_file@, separator) ==> r is None
            &&& spec_matches_target(project_root@, target_path@, span_file@, separator) ==> match spec_strip_prefix(
                span_file@,
                "file://"@,
            ) {
                None => false,
                Some(p) => match file_path_url(spec_ensure_absolute(project_root@, p, separator)) {
                    Some(u) => r matches Some(Ok(s)) && s@ == u,
                    None => r == Some(Err::<String, DocumentKeyError>(DocumentKeyError::PathToUrl)),
                },
            }
        },
{
    let separator = main_separator();
    span_document_url_with_separator(project_root, target_path, span_file, separator)
}

} // verus!
