use conformance::diag::Diag;
use conformance::fixture::parse_fixture;

#[test]
fn two_well_formed_records() {
    let r = parse_fixture("a\n===\n1\n---\n2\n...\nb\n===\n3\n---\n4\n...\n").unwrap();
    assert_eq!(r.len(), 2);
    assert_eq!(r[0].name, "_a");
    assert_eq!(r[0].input, "1");
    assert_eq!(r[0].output, "2");
    assert_eq!(r[1].name, "_b");
    assert_eq!(r[1].input, "3");
    assert_eq!(r[1].output, "4");
}

#[test]
fn missing_trailing_newline_is_rejected() {
    let e = parse_fixture("a\n===\n1\n---\n2\n...").unwrap_err();
    assert_eq!(e.len(), 1);
    assert!(matches!(e[0], Diag::MissingTrailingNewline));
    assert_eq!(e[0].message(), "file needs to have trailing newline");
}

#[test]
fn empty_text_is_rejected() {
    let e = parse_fixture("").unwrap_err();
    assert_eq!(e.len(), 1);
    assert!(matches!(e[0], Diag::MissingTrailingNewline));
}

#[test]
fn trailing_content_is_rejected() {
    let e = parse_fixture("a\n===\n1\n---\n2\n...\nxyz\n").unwrap_err();
    assert_eq!(e.len(), 1);
    assert!(matches!(e[0], Diag::TrailingContent));
    assert_eq!(e[0].message(), "file has disallowed content after final `...`");
}

#[test]
fn content_without_terminator_is_rejected() {
    let e = parse_fixture("abc\n").unwrap_err();
    assert_eq!(e.len(), 1);
    assert!(matches!(e[0], Diag::TrailingContent));
}

#[test]
fn whitespace_only_file_has_no_records() {
    assert_eq!(parse_fixture("\n").unwrap().len(), 0);
    assert_eq!(parse_fixture("  \t\n").unwrap().len(), 0);
}

#[test]
fn whitespace_after_terminator_is_allowed() {
    let r = parse_fixture("a\n===\n1\n---\n2\n...\n   \n").unwrap();
    assert_eq!(r.len(), 1);
    assert_eq!(r[0].name, "_a");
}

#[test]
fn last_body_separator_is_authoritative() {
    let r = parse_fixture("name\n===\npart1\n---\npart2\n---\nout\n...\n").unwrap();
    assert_eq!(r.len(), 1);
    assert_eq!(r[0].name, "_name");
    assert_eq!(r[0].input, "part1\n---\npart2");
    assert_eq!(r[0].output, "out");
}

#[test]
fn one_diagnostic_per_malformed_record() {
    let e = parse_fixture("a\n1\n...\nb\n2\n...\n").unwrap_err();
    assert_eq!(e.len(), 2);
    assert!(matches!(e[0], Diag::MissingNameSeparator { index: 0 }));
    assert!(matches!(e[1], Diag::MissingNameSeparator { index: 1 }));
    assert_eq!(e[0].message(), "test 0 does not have `===` after name");
    assert_eq!(e[1].message(), "test 1 does not have `===` after name");
}

#[test]
fn malformed_record_does_not_hide_later_errors() {
    let e = parse_fixture("a\n===\n1\n...\nb-x\n===\n2\n---\n3\n...\n").unwrap_err();
    assert_eq!(e.len(), 2);
    match &e[0] {
        Diag::MissingBodySeparator { name } => assert_eq!(name, "a"),
        _ => panic!("wrong diagnostic"),
    }
    match &e[1] {
        Diag::InvalidIdentifier { name } => assert_eq!(name, "b-x"),
        _ => panic!("wrong diagnostic"),
    }
}

#[test]
fn missing_body_separator_names_the_record() {
    let e = parse_fixture("a\n===\n1\n...\n").unwrap_err();
    assert_eq!(e.len(), 1);
    assert_eq!(e[0].message(), "test `a` does not have `---` after input");
}

#[test]
fn invalid_identifier_is_rejected() {
    let e = parse_fixture("a-b\n===\n1\n---\n2\n...\n").unwrap_err();
    assert_eq!(e.len(), 1);
    assert_eq!(e[0].message(), "`a-b` is not a valid test name identifier");
}

#[test]
fn empty_name_is_rejected() {
    let e = parse_fixture("\n===\n1\n---\n2\n...\n").unwrap_err();
    assert_eq!(e.len(), 1);
    assert!(matches!(&e[0], Diag::InvalidIdentifier { .. }));
}

#[test]
fn spaces_in_name_become_underscores() {
    let r = parse_fixture("  my test \n===\nx\n---\ny\n...\n").unwrap();
    assert_eq!(r.len(), 1);
    assert_eq!(r[0].name, "_my_test");
}

#[test]
fn digit_name_is_valid_after_prefixing() {
    let r = parse_fixture("1\n===\nx\n---\ny\n...\n").unwrap();
    assert_eq!(r.len(), 1);
    assert_eq!(r[0].name, "_1");
}

#[test]
fn input_and_output_are_trimmed() {
    let r = parse_fixture("n\n===\n  x y \n---\n\n z \n...\n").unwrap();
    assert_eq!(r.len(), 1);
    assert_eq!(r[0].input, "x y");
    assert_eq!(r[0].output, "z");
}

#[test]
fn decimal_indices_render_in_full() {
    let d = Diag::MissingNameSeparator { index: 12 };
    assert_eq!(d.message(), "test 12 does not have `===` after name");
    let d = Diag::MissingNameSeparator { index: 100 };
    assert_eq!(d.message(), "test 100 does not have `===` after name");
}

#[test]
fn unicode_whitespace_is_trimmed() {
    let r = parse_fixture(" \u{00A0}x\u{2003}\n===\na\n---\nb\n...\n").unwrap();
    assert_eq!(r.len(), 1);
    assert_eq!(r[0].name, "_x");
}
