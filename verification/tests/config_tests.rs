use conformance::config::parse_config;
use conformance::diag::Diag;

fn config_detail(d: &Diag) -> &str {
    match d {
        Diag::Config { detail } => detail.as_str(),
        _ => panic!("not a configuration diagnostic"),
    }
}

#[test]
fn full_configuration_parses() {
    let c = parse_config("exact, ser = my::ser_fn, de = my::de_fn, file = \"tests/cases.txt\"")
        .unwrap();
    assert_eq!(c.ser, "my::ser_fn");
    assert_eq!(c.de, "my::de_fn");
    assert_eq!(c.file, "tests/cases.txt");
}

#[test]
fn whitespace_between_tokens_is_free() {
    let c = parse_config("  exact ,ser=a::b,de=c,file=\"f.txt\"  ").unwrap();
    assert_eq!(c.ser, "a::b");
    assert_eq!(c.de, "c");
    assert_eq!(c.file, "f.txt");
}

#[test]
fn string_escapes_are_decoded() {
    let c = parse_config("exact, ser = s, de = d, file = \"a\\nb\\\\c\\\"d\"").unwrap();
    assert_eq!(c.file, "a\nb\\c\"d");
}

#[test]
fn wrong_mode_keyword_is_rejected() {
    let e = parse_config("exactly, ser = s, de = d, file = \"f\"").unwrap_err();
    assert_eq!(config_detail(&e), "expected `exact`");
    assert_eq!(e.message(), "expected `exact`");
}

#[test]
fn empty_configuration_is_rejected() {
    let e = parse_config("").unwrap_err();
    assert_eq!(config_detail(&e), "expected `exact`");
}

#[test]
fn wrong_order_is_rejected() {
    let e = parse_config("ser = s, exact, de = d, file = \"f\"").unwrap_err();
    assert_eq!(config_detail(&e), "expected `exact`");
}

#[test]
fn missing_comma_is_rejected() {
    let e = parse_config("exact ser = s, de = d, file = \"f\"").unwrap_err();
    assert_eq!(config_detail(&e), "expected `,`");
}

#[test]
fn missing_path_is_rejected() {
    let e = parse_config("exact, ser = , de = d, file = \"f\"").unwrap_err();
    assert_eq!(config_detail(&e), "expected a path");
}

#[test]
fn missing_equals_is_rejected() {
    let e = parse_config("exact, ser s, de = d, file = \"f\"").unwrap_err();
    assert_eq!(config_detail(&e), "expected `=`");
}

#[test]
fn missing_file_keyword_is_rejected() {
    let e = parse_config("exact, ser = s, de = d, data = \"f\"").unwrap_err();
    assert_eq!(config_detail(&e), "expected `file`");
}

#[test]
fn missing_string_literal_is_rejected() {
    let e = parse_config("exact, ser = s, de = d, file = f").unwrap_err();
    assert_eq!(config_detail(&e), "expected a string literal");
}

#[test]
fn unterminated_string_literal_is_rejected() {
    let e = parse_config("exact, ser = s, de = d, file = \"f").unwrap_err();
    assert_eq!(config_detail(&e), "malformed string literal");
}

#[test]
fn unsupported_escape_is_rejected() {
    let e = parse_config("exact, ser = s, de = d, file = \"\\q\"").unwrap_err();
    assert_eq!(config_detail(&e), "malformed string literal");
}

#[test]
fn trailing_tokens_are_rejected() {
    let e = parse_config("exact, ser = s, de = d, file = \"f\", extra").unwrap_err();
    assert_eq!(config_detail(&e), "unexpected trailing tokens");
}
