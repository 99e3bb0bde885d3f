use baml_language_server::{
    matches_target, select_target_diagnostics, select_target_diagnostics_with_separator,
    span_document_url, span_document_url_with_separator,
    BamlDiagnostic, CodeLens, Completion, DidCloseTextDocument, DidSaveTextDocument,
    DocumentKeyError, FunctionSummary, Hover, LensTarget, Position, Range, SelectedDiagnostic,
    Severity, Span, TestCaseSummary, WasmSpan,
};

const ROOT: &str = "/project/baml_src";

fn diag(file: &str, start: usize) -> BamlDiagnostic {
    BamlDiagnostic {
        span: Span { file: file.to_string(), start, end: start + 1 },
        message: format!("at {}", start),
    }
}

#[test]
fn spans_match_their_target_document() {
    let target = "/project/baml_src/main.baml";
    let span = |f: &str| Span { file: f.to_string(), start: 0, end: 1 };
    assert!(matches_target(ROOT, target, &span("file:///project/baml_src/main.baml")));
    assert!(matches_target(ROOT, target, &span("file:///main.baml")));
    assert!(!matches_target(ROOT, target, &span("file:///project/baml_src/other.baml")));
    assert!(!matches_target(ROOT, target, &span("/project/baml_src/main.baml")));
}

#[test]
fn errors_come_before_warnings_and_others_are_left_out() {
    let target = "/project/baml_src/main.baml";
    let errors = vec![
        diag("file:///project/baml_src/main.baml", 1),
        diag("file:///project/baml_src/other.baml", 2),
        diag("file:///main.baml", 3),
    ];
    let warnings = vec![diag("main.baml", 4), diag("file:///project/baml_src/main.baml", 5)];
    let selected = select_target_diagnostics(ROOT, target, &errors, &warnings);
    assert_eq!(
        selected,
        vec![
            SelectedDiagnostic { severity: Severity::Error, index: 0 },
            SelectedDiagnostic { severity: Severity::Error, index: 2 },
            SelectedDiagnostic { severity: Severity::Warning, index: 1 },
        ]
    );
    let same = select_target_diagnostics_with_separator(ROOT, target, &errors, &warnings, "/");
    assert_eq!(selected, same);
    assert!(select_target_diagnostics(ROOT, "/elsewhere.baml", &errors, &warnings).is_empty());
}

fn wasm_span(file: &str, start_line: usize) -> WasmSpan {
    WasmSpan { file_path: file.to_string(), start: 4, end: 40, start_line, end_line: start_line + 3 }
}

#[test]
fn code_lenses_for_functions_then_tests() {
    let doc = "/project/baml_src/main.baml";
    let functions = vec![
        FunctionSummary { name: "Extract".to_string(), span: wasm_span("file:///project/baml_src/main.baml", 2) },
        FunctionSummary { name: "Other".to_string(), span: wasm_span("file:///project/baml_src/other.baml", 7) },
    ];
    let testcases = vec![
        TestCaseSummary {
            name: "Simple".to_string(),
            span: wasm_span("file:///project/baml_src/main.baml", 20),
            parent_functions: vec!["Extract".to_string()],
        },
        TestCaseSummary {
            name: "Shared".to_string(),
            span: wasm_span("file:///project/baml_src/main.baml", 30),
            parent_functions: vec!["Extract".to_string(), "Other".to_string()],
        },
        TestCaseSummary {
            name: "Elsewhere".to_string(),
            span: wasm_span("file:///project/baml_src/other.baml", 1),
            parent_functions: vec![],
        },
    ];
    let lenses = CodeLens::lenses(doc, &functions, &testcases);
    assert_eq!(lenses.len(), 3);
    assert_eq!(lenses[0].title, "\u{25b6} Open Playground \u{2728}");
    assert_eq!(lenses[0].command, "baml.openBamlPanel");
    assert!(matches!(&lenses[0].target, LensTarget::Function { function_name } if function_name == "Extract"));
    assert_eq!(
        lenses[0].range,
        Range { start: Position { line: 2, character: 4 }, end: Position { line: 5, character: 40 } }
    );
    assert_eq!(lenses[1].title, "\u{25b6} Run Test \u{1f4a5}");
    assert_eq!(lenses[1].command, "baml.runBamlTest");
    assert!(matches!(&lenses[1].target,
        LensTarget::TestCase { test_case_name, function_name } if test_case_name == "Simple" && function_name == "Extract"));
    assert_eq!(lenses[2].title, "\u{25b6} Run for $Extract \u{1f4a5} ");
    assert_eq!(lenses[2].range.start.line, 30);
}

#[test]
fn code_lens_document_match_needs_the_file_scheme() {
    assert!(CodeLens::doc_matches("/a.baml", &wasm_span("file:///a.baml", 0)));
    assert!(!CodeLens::doc_matches("/a.baml", &wasm_span("/a.baml", 0)));
    assert!(!CodeLens::doc_matches("/a.baml", &wasm_span("file:///b.baml", 0)));
}

#[test]
fn ranges_narrow_like_casts() {
    let r = Range::from_usize(1, 2, 3, 4);
    assert_eq!(r, Range { start: Position { line: 1, character: 2 }, end: Position { line: 3, character: 4 } });
    let big = (u32::MAX as usize).wrapping_add(6);
    let r = Range::from_usize(big, 0, 0, 0);
    assert_eq!(r.start.line, big as u32);
}

#[test]
fn completions_after_known_words() {
    assert_eq!(
        Completion::labels("_."),
        Some(vec!["role(\"system\")", "role(\"assistant\")", "role(\"user\")"])
    );
    assert_eq!(Completion::labels("ctx."), Some(vec!["output_format", "client"]));
    assert_eq!(Completion::labels("ctx.client."), Some(vec!["name", "provider"]));
    assert_eq!(Completion::labels("ctx.clien"), None);
    assert_eq!(Completion::labels(""), None);
}

#[test]
fn generator_messages() {
    assert_eq!(
        DidSaveTextDocument::generated_message("0.1.0"),
        "BAML: Client generated! (Using installed baml-cli 0.1.0)"
    );
    assert_eq!(DidSaveTextDocument::generation_error_message("boom"), "Error generating: boom");
}

#[test]
fn hover_document_or_missing_file() {
    let text = "function F() {}".to_string();
    let doc = Hover::document("file:///a.baml", Some(&text)).unwrap();
    assert_eq!(doc.uri, "file:///a.baml");
    assert_eq!(doc.language_id, "BAML");
    assert_eq!(doc.text, text);
    assert_eq!(doc.version, 1);
    let err = Hover::document("file:///b.baml", None).unwrap_err();
    assert_eq!(err, "File file:///b.baml was not present in the project");
}

#[test]
fn closing_documents() {
    assert_eq!(DidCloseTextDocument::key_to_close(None, "file:///a.baml"), Ok(None));
    let key = DidCloseTextDocument::key_to_close(Some(ROOT), "file:///a.baml").unwrap().unwrap();
    assert_eq!(key.url(), "file:///project/baml_src/a.baml");
    assert_eq!(
        DidCloseTextDocument::key_to_close(Some(ROOT), "::"),
        Err(DocumentKeyError::InvalidUrl)
    );
}

#[test]
fn span_document_urls() {
    let target = "/project/baml_src/main.baml";
    assert_eq!(span_document_url(ROOT, target, "main.baml"), None);
    assert_eq!(
        span_document_url(ROOT, target, "file:///main.baml"),
        Some(Ok("file:///project/baml_src/main.baml".to_string()))
    );
    assert_eq!(
        span_document_url_with_separator(ROOT, target, "file:///project/baml_src/main.baml", "/"),
        Some(Ok("file:///project/baml_src/main.baml".to_string()))
    );
    // Spans of other documents are filtered out.
    assert_eq!(span_document_url(ROOT, target, "file:///project/baml_src/other.baml"), None);
    assert_eq!(span_document_url_with_separator(ROOT, target, "file:///other.baml", "/"), None);
    assert_eq!(
        span_document_url("relative", "relative/x.baml", "file://x.baml"),
        Some(Err(DocumentKeyError::PathToUrl))
    );
}
