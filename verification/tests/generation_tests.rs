use conformance::codegen::{
    base_name, emit, generate_tests, has_proper_file_name, join_path, render_diags, render_helper,
    render_suite,
};
use conformance::diag::Diag;
use conformance::driver::{analyze_item, build_suite, plan_generation};
use conformance::fixture::parse_fixture;
use conformance::outcome::{exact_outcome, TestOutcome};

#[test]
fn base_name_drops_directory_and_extension() {
    assert_eq!(base_name("/root/proj/tests/cases.txt"), "cases");
    assert_eq!(base_name("cases.txt"), "cases");
    assert_eq!(base_name("dir/a.b.txt"), "a_b");
    assert_eq!(base_name(".hidden"), "_hidden");
    assert_eq!(base_name("plain"), "plain");
}

#[test]
fn proper_file_names_are_recognized() {
    assert!(has_proper_file_name("a/b.txt"));
    assert!(has_proper_file_name("b"));
    assert!(!has_proper_file_name(""));
    assert!(!has_proper_file_name("a/"));
    assert!(!has_proper_file_name("a/.."));
    assert!(!has_proper_file_name("."));
}

#[test]
fn join_path_inserts_one_slash() {
    assert_eq!(join_path("/root", "t/c.txt"), "/root/t/c.txt");
    assert_eq!(join_path("/root", "/abs.txt"), "/abs.txt");
}

#[test]
fn one_test_per_record_with_deterministic_names() {
    let recs = parse_fixture("a\n===\n1\n---\n2\n...\nb\n===\n3\n---\n4\n...\n").unwrap();
    let tests = generate_tests("cases", &recs);
    assert_eq!(tests.len(), 2);
    assert_eq!(tests[0].test_name, "cases_a");
    assert_eq!(tests[1].test_name, "cases_b");
    assert_eq!(tests[0].record.input, "1");
    assert_eq!(tests[1].record.output, "4");
}

#[test]
fn helper_source_is_rendered_exactly() {
    let src = render_helper("cases", "/r/tests/cases.txt", "s", "d", "f", "String");
    let expected = "fn cases(expected: &str, actual: &str) -> Result<(), Box<dyn ::std::error::Error>> {\n    const _: &str = include_str!(\"/r/tests/cases.txt\");\n    let actual = s(&f(actual))?;\n    let expected = s(&d::<String>(expected)?)?;\n    assert_eq!(actual, expected);\n    Ok(())\n}\n";
    assert_eq!(src, expected);
}

#[test]
fn suite_source_holds_helper_and_each_test() {
    let recs = parse_fixture("a\n===\n1\n---\n2\n...\n").unwrap();
    let tests = generate_tests("cases", &recs);
    let src = render_suite("cases", "/r/cases.txt", "s", "d", "f", "String", &tests);
    let helper = render_helper("cases", "/r/cases.txt", "s", "d", "f", "String");
    let test = "#[test]\nfn cases_a() -> Result<(), Box<dyn ::std::error::Error>> {\n    cases(\"2\", \"1\")\n}\n";
    assert_eq!(src, format!("{}{}", helper, test));
}

#[test]
fn string_payloads_are_escaped_in_rendered_tests() {
    let recs = parse_fixture("a\n===\nx\ny\n---\n\"q\"\n...\n").unwrap();
    let tests = generate_tests("t", &recs);
    let src = render_suite("t", "p", "s", "d", "f", "()", &tests);
    assert!(src.contains("t(\"\\\"q\\\"\", \"x\\ny\")"));
}

#[test]
fn diagnostics_render_as_compile_errors() {
    let diags = vec![Diag::MissingTrailingNewline];
    let src = render_diags(&diags);
    assert_eq!(src, "compile_error! { \"file needs to have trailing newline\" }\n");
}

#[test]
fn emit_reemits_the_item_first() {
    assert_eq!(emit("fn f() {}", "tail"), "fn f() {}\ntail");
}

#[test]
fn signature_analysis_extracts_name_and_return_type() {
    let f = analyze_item("fn foo(x: &str) -> String { x.to_string() }").unwrap();
    assert_eq!(f.name, "foo");
    assert_eq!(f.return_type, "String");
}

#[test]
fn missing_return_type_defaults_to_unit() {
    let f = analyze_item("fn foo() {}").unwrap();
    assert_eq!(f.name, "foo");
    assert_eq!(f.return_type, "()");
}

#[test]
fn non_function_item_is_a_signature_error() {
    let e = analyze_item("struct X;").unwrap_err();
    assert_eq!(e.message(), "expected a function declaration");
}

#[test]
fn plan_collects_every_failure_in_order() {
    let e = plan_generation(
        "bogus",
        "struct X;",
        Err(String::from("environment variable not found")),
    )
    .unwrap_err();
    assert_eq!(e.len(), 3);
    assert!(matches!(&e[0], Diag::Config { .. }));
    assert!(matches!(&e[1], Diag::Signature { .. }));
    assert!(matches!(&e[2], Diag::Environment { .. }));
    assert_eq!(
        e[2].message(),
        "expected $CARGO_MANIFEST_DIR; environment variable not found"
    );
}

#[test]
fn plan_reports_a_single_failure_alone() {
    let e = plan_generation(
        "bogus",
        "fn f() {}",
        Ok(String::from("/root")),
    )
    .unwrap_err();
    assert_eq!(e.len(), 1);
    assert!(matches!(&e[0], Diag::Config { .. }));
}

#[test]
fn successful_plan_joins_the_fixture_path() {
    let plan = plan_generation(
        "exact, ser = s, de = d, file = \"tests/cases.txt\"",
        "fn f(x: &str) -> String { x.to_string() }",
        Ok(String::from("/proj")),
    )
    .unwrap();
    assert_eq!(plan.fixture_path, "/proj/tests/cases.txt");
    assert_eq!(plan.config.ser, "s");
    assert_eq!(plan.sig.name, "f");
}

#[test]
fn build_suite_renders_one_test_per_record() {
    let plan = plan_generation(
        "exact, ser = s, de = d, file = \"cases.txt\"",
        "fn f(x: &str) -> String { x.to_string() }",
        Ok(String::from("/proj")),
    )
    .unwrap();
    let src = build_suite(&plan, "a\n===\n1\n---\n2\n...\nb\n===\n3\n---\n4\n...\n").unwrap();
    assert!(src.contains("fn cases(expected: &str, actual: &str)"));
    assert!(src.contains("fn cases_a()"));
    assert!(src.contains("fn cases_b()"));
    assert!(src.contains("include_str!(\"/proj/cases.txt\")"));
}

#[test]
fn build_suite_reports_fixture_diagnostics() {
    let plan = plan_generation(
        "exact, ser = s, de = d, file = \"cases.txt\"",
        "fn f() {}",
        Ok(String::from("/proj")),
    )
    .unwrap();
    let e = build_suite(&plan, "a\n===\n1\n---\n2\n...").unwrap_err();
    assert_eq!(e.len(), 1);
    assert!(matches!(e[0], Diag::MissingTrailingNewline));
}

fn textual_ser(v: &str) -> Result<String, String> {
    Ok(v.to_string())
}

fn textual_de(v: &str) -> Result<String, String> {
    Ok(v.to_string())
}

fn run_protocol(
    transform: impl Fn(&str) -> String,
    input: &str,
    expected_text: &str,
) -> TestOutcome {
    let actual = textual_ser(&transform(input));
    let expected = match textual_de(expected_text) {
        Ok(v) => textual_ser(&v),
        Err(e) => Err(e),
    };
    exact_outcome(actual, expected)
}

#[test]
fn identity_transform_mismatches_are_reported() {
    let recs = parse_fixture("a\n===\n1\n---\n2\n...\nb\n===\n3\n---\n4\n...\n").unwrap();
    let tests = generate_tests("", &recs);
    assert_eq!(tests[0].test_name, "_a");
    assert_eq!(tests[1].test_name, "_b");
    match run_protocol(|s| s.to_string(), &tests[0].record.input, &tests[0].record.output) {
        TestOutcome::Mismatch { actual, expected } => {
            assert_eq!(actual, "1");
            assert_eq!(expected, "2");
        },
        _ => panic!("expected a mismatch"),
    }
    match run_protocol(|s| s.to_string(), &tests[1].record.input, &tests[1].record.output) {
        TestOutcome::Mismatch { actual, expected } => {
            assert_eq!(actual, "3");
            assert_eq!(expected, "4");
        },
        _ => panic!("expected a mismatch"),
    }
}

#[test]
fn uppercase_transform_passes() {
    let recs = parse_fixture("x\n===\nhi\n---\nHI\n...\n").unwrap();
    let tests = generate_tests("", &recs);
    assert_eq!(tests.len(), 1);
    assert_eq!(tests[0].test_name, "_x");
    match run_protocol(|s| s.to_uppercase(), &tests[0].record.input, &tests[0].record.output) {
        TestOutcome::Pass => {},
        _ => panic!("expected a pass"),
    }
}

#[test]
fn normalization_failures_surface_their_detail() {
    match exact_outcome(Err(String::from("boom")), Ok(String::from("x"))) {
        TestOutcome::NormalizationFailure { detail } => assert_eq!(detail, "boom"),
        _ => panic!("expected a normalization failure"),
    }
    match exact_outcome(Ok(String::from("x")), Err(String::from("bust"))) {
        TestOutcome::NormalizationFailure { detail } => assert_eq!(detail, "bust"),
        _ => panic!("expected a normalization failure"),
    }
}

#[test]
fn equal_canonical_forms_pass() {
    match exact_outcome(Ok(String::from("x")), Ok(String::from("x"))) {
        TestOutcome::Pass => {},
        _ => panic!("expected a pass"),
    }
}
