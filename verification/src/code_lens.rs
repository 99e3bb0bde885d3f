use vstd::prelude::*;

use crate::lsp::Range;
use crate::text::{concat, owned, spec_strip_prefix, strip_prefix, str_eq};

verus! {

/// Where a function or test case stands in a source file, as the project
/// reports it: the file's `file://` URL, the start and end offsets, and the
/// start and end lines.
#[derive(Debug)]
pub struct WasmSpan {
    pub file_path: String,
    pub start: usize,
    pub end: usize,
    pub start_line: usize,
    pub end_line: usize,
}

/// A function of the project.
#[derive(Debug)]
pub struct FunctionSummary {
    pub name: String,
    pub span: WasmSpan,
}

/// A test case of the project and the names of the functions it tests.
#[derive(Debug)]
pub struct TestCaseSummary {
    pub name: String,
    pub span: WasmSpan,
    pub parent_functions: Vec<String>,
}

/// What a lens's command acts on.
#[derive(Debug)]
pub enum LensTarget {
    /// Open the playground on a function.
    Function { function_name: String },
    /// Run a test case of a function.
    TestCase { test_case_name: String, function_name: String },
}

/// A code lens: where it stands, its title, the command it runs and what the
/// command acts on.
#[derive(Debug)]
pub struct Lens {
    pub range: Range,
    pub title: String,
    pub command: String,
    pub target: LensTarget,
}

/// The value of a [`LensTarget`].
pub enum LensTargetValue {
    Function { function_name: Seq<char> },
    TestCase { test_case_name: Seq<char>, function_name: Seq<char> },
}

/// The value of a [`Lens`].
pub struct LensValue {
    pub range: Range,
    pub title: Seq<char>,
    pub command: Seq<char>,
    pub target: LensTargetValue,
}

impl View for Lens {
    type V = LensValue;

    open spec fn view(&self) -> LensValue {
        LensValue {
            range: self.range,
            title: self.title@,
            command: self.command@,
            target: match self.target {
                LensTarget::Function { function_name } => LensTargetValue::Function { function_name: function_name@ },
                LensTarget::TestCase { test_case_name, function_name } => LensTargetValue::TestCase {
                    test_case_name: test_case_name@,
                    function_name: function_name@,
                },
            },
        }
    }
}

/// The title of the lens that opens the playground.
pub open spec fn playground_title() -> Seq<char> {
    "\u{25b6} Open Playground \u{2728}"@
}

/// The command that opens the playground.
pub open spec fn playground_command() -> Seq<char> {
    "baml.openBamlPanel"@
}

/// The command that runs a test.
pub open spec fn run_test_command() -> Seq<char> {
    "baml.runBamlTest"@
}

/// The title of the lens that runs a test case: it names the first tested
/// function when the test case tests more than one.
pub open spec fn run_test_title(parent_functions: Seq<String>) -> Seq<char> {
    if parent_functions.len() > 1 {
        "\u{25b6} Run for $"@ + parent_functions[0]@ + " \u{1f4a5} "@
    } else {
        "\u{25b6} Run Test \u{1f4a5}"@
    }
}

/// The range of a span: from (start line, start offset) to (end line, end
/// offset), each narrowed to `u32`.
pub open spec fn span_range(span: WasmSpan) -> Range {
    Range {
        start: crate::lsp::Position { line: span.start_line as u32, character: span.start as u32 },
        end: crate::lsp::Position { line: span.end_line as u32, character: span.end as u32 },
    }
}

/// Whether a span lies in the document whose URL has the path `doc_path`:
/// the span's file must be `file://` followed by that path.
pub open spec fn spec_doc_matches(doc_path: Seq<char>, span: WasmSpan) -> bool {
    spec_strip_prefix(span.file_path@, "file://"@) == Some(doc_path)
}

/// The lenses of the first `n` functions that lie in the document.
pub open spec fn function_lenses(doc_path: Seq<char>, functions: Seq<FunctionSummary>, n: nat) -> Seq<LensValue>
    decreases n,
{
    if n == 0 {
        Seq::empty()
    } else {
        let before = function_lenses(doc_path, functions, (n - 1) as nat);
        let f = functions[n - 1];
        if spec_doc_matches(doc_path, f.span) {
            before.push(LensValue {
                range: span_range(f.span),
                title: playground_title(),
                command: playground_command(),
                target: LensTargetValue::Function { function_name: f.name@ },
            })
        } else {
            before
        }
    }
}

/// The lenses of the first `n` test cases that lie in the document.
pub open spec fn test_case_lenses(doc_path: Seq<char>, testcases: Seq<TestCaseSummary>, n: nat) -> Seq<LensValue>
    decreases n,
{
    if n == 0 {
        Seq::empty()
    } else {
        let before = test_case_lenses(doc_path, testcases, (n - 1) as nat);
        let t = testcases[n - 1];
        if spec_doc_matches(doc_path, t.span) {
            before.push(LensValue {
                range: span_range(t.span),
                title: run_test_title(t.parent_functions@),
                command: run_test_command(),
                target: LensTargetValue::TestCase {
                    test_case_name: t.name@,
                    function_name: t.parent_functions@[0]@,
                },
            })
        } else {
            before
        }
    }
}

/// The code lenses of a document: one per function and one per test case
/// that lies in the document.
pub struct CodeLens;

impl CodeLens {
    /// Whether `span` lies in the document whose URL has the path `doc_path`.
    pub fn doc_matches(doc_path: &str, span: &WasmSpan) -> (r: bool)
        ensures
            r == spec_doc_matches(doc_path@, *span),
    {
        match strip_prefix(span.file_path.as_str(), "file://") {
            Some(path) => str_eq(path, doc_path),
            None => false,
        }
    }

    /// The range of `span`.
    pub fn range_of(span: &WasmSpan) -> (r: Range)
        ensures
            r == span_range(*span),
    {
        Range::from_usize(span.start_line, span.start, span.end_line, span.end)
    }

    /// The lenses of the document whose URL has the path `doc_path`: first
    /// one that opens the playground for each function in the document, then
    /// one that runs each test case in the document, each in the given order.
    /// A test case in the document must name a function it tests.
    pub fn lenses(doc_path: &str, functions: &Vec<FunctionSummary>, testcases: &Vec<TestCaseSummary>) -> (r: Vec<Lens>)
        requires
            forall|i: int|
                0 <= i < testcases@.len() && spec_doc_matches(doc_path@, #[trigger] testcases@[i].span)
                    ==> testcases@[i].parent_functions@.len() > 0,
        ensures
            r@.map_values(|l: Lens| l@) == function_lenses(doc_path@, functions@, functions@.len())
                + test_case_lenses(doc_path@, testcases@, testcases@.len()),
    {
        let mut out: Vec<Lens> = Vec::new();
        let n = functions.len();
        for i in 0..n
            invariant
                n == functions@.len(),
                out@.map_values(|l: Lens| l@) == function_lenses(doc_path@, functions@, i as nat),
        {
            let f = &functions[i];
            if Self::doc_matches(doc_path, &f.span) {
                let lens = Lens {
                    range: Self::range_of(&f.span),
                    title: owned("\u{25b6} Open Playground \u{2728}"),
                    command: owned("baml.openBamlPanel"),
                    target: LensTarget::Function { function_name: f.name.clone() },
                };
                out.push(lens);
            }
            assert(out@.map_values(|l: Lens| l@) =~= function_lenses(doc_path@, functions@, (i + 1) as nat));
        }
        let ghost after_functions = out@.map_values(|l: Lens| l@);
        let m = testcases.len();
        for i in 0..m
            invariant
                m == testcases@.len(),
                forall|k: int|
                    0 <= k < testcases@.len() && spec_doc_matches(doc_path@, #[trigger] testcases@[k].span)
                        ==> testcases@[k].parent_functions@.len() > 0,
                out@.map_values(|l: Lens| l@) == after_functions + test_case_lenses(doc_path@, testcases@, i as nat),
        {
            let t = &testcases[i];
            if Self::doc_matches(doc_path, &t.span) {
                let title = if t.parent_functions.len() > 1 {
                    let head = concat("\u{25b6} Run for $", t.parent_functions[0].as_str());
                    concat(head.as_str(), " \u{1f4a5} ")
                } else {
                    owned("\u{25b6} Run Test \u{1f4a5}")
                };
                let lens = Lens {
                    range: Self::range_of(&t.span),
                    title,
                    command: owned("baml.runBamlTest"),
                    target: LensTarget::TestCase {
                        test_case_name: t.name.clone(),
                        function_name: t.parent_functions[0].clone(),
                    },
                };
                assert(lens@.title == run_test_title(t.parent_functions@));
                assert(lens@.range == span_range(t.span));
                assert(lens@.target == (LensTargetValue::TestCase {
                    test_case_name: t.name@,
                    function_name: t.parent_functions@[0]@,
                }));
                let ghost before = out@;
                let ghost lv = lens@;
                out.push(lens);
                assert(out@.map_values(|l: Lens| l@) =~= before.map_values(|l: Lens| l@).push(lv));
                assert(test_case_lenses(doc_path@, testcases@, (i + 1) as nat) == test_case_lenses(doc_path@, testcases@, i as nat).push(lv));
            }
            assert(out@.map_values(|l: Lens| l@) =~= after_functions + test_case_lenses(doc_path@, testcases@, (i + 1) as nat));
        }
        out
    }
}


/// Every test-case lens belongs to a test case in the document: the `k`th
/// lens runs some test case for the first function the test case names, with
/// the run-test command, and when the test case names more than one function
/// its title names that same function.
pub proof fn lemma_test_case_lens_targets_first_function(
    doc_path: Seq<char>,
    testcases: Seq<TestCaseSummary>,
    n: nat,
    k: int,
)
    requires
        n <= testcases.len(),
        0 <= k < test_case_lenses(doc_path, testcases, n).len(),
    ensures
        exists|i: int|
            0 <= i < n && #[trigger] lens_runs_test_case(
                test_case_lenses(doc_path, testcases, n)[k],
                doc_path,
                testcases[i],
            ),
    decreases n,
{
    let before = test_case_lenses(doc_path, testcases, (n - 1) as nat);
    let lenses = test_case_lenses(doc_path, testcases, n);
    if k < before.len() {
        lemma_test_case_lens_targets_first_function(doc_path, testcases, (n - 1) as nat, k);
        assert(lenses[k] == before[k]);
        let i = choose|i: int| 0 <= i < n - 1 && #[trigger] lens_runs_test_case(before[k], doc_path, testcases[i]);
        assert(lens_runs_test_case(lenses[k], doc_path, testcases[i]));
    } else {
        reveal_strlit("\u{25b6} Run for $");
        reveal_strlit(" \u{1f4a5} ");
        assert(lens_runs_test_case(lenses[k], doc_path, testcases[n - 1]));
    }
}

/// `lens` lies in the document and runs the test case `t` for the first
/// function that `t` names, with the run-test command; when `t` names more
/// than one function, the title names that same function.
pub open spec fn lens_runs_test_case(lens: LensValue, doc_path: Seq<char>, t: TestCaseSummary) -> bool {
    &&& spec_strip_prefix(t.span.file_path@, "file://"@) == Some(doc_path)
    &&& lens.range == span_range(t.span)
    &&& lens.command == "baml.runBamlTest"@
    &&& lens.target == (LensTargetValue::TestCase {
        test_case_name: t.name@,
        function_name: t.parent_functions@[0]@,
    })
    &&& t.parent_functions@.len() > 1 ==> lens.title == "\u{25b6} Run for $"@ + t.parent_functions@[0]@ + " \u{1f4a5} "@
}

} // verus!
