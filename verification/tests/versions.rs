use std::cmp::Ordering;
use plugin_market::version::{compare_versions, parse_version, VersionPart};

#[test]
fn numeric_fields_compare_numerically() {
    assert_eq!(compare_versions("1.2.0", "1.10.0"), Ordering::Less);
}

#[test]
fn trailing_text_token_compares_above_zero_padding() {
    // "2.0-beta" vs "2.0": positions "2","0" agree, then Text("beta")
    // meets the padded Number(0), and a number orders below any text —
    // so the release orders below its suffixed form.
    assert_eq!(compare_versions("2.0", "2.0-beta"), Ordering::Less);
    assert_eq!(compare_versions("2.0-beta", "2.0"), Ordering::Greater);
}

#[test]
fn equal_versions_compare_equal() {
    assert_eq!(compare_versions("1.5", "1.5"), Ordering::Equal);
    assert_eq!(compare_versions("", ""), Ordering::Equal);
    assert_eq!(compare_versions("2.0-beta", "2.0-beta"), Ordering::Equal);
}

#[test]
fn comparison_is_inverted_when_arguments_swap() {
    let pairs = [("1.2", "1.10"), ("2.0-beta", "2.0"), ("1.0a", "1.0b"), ("3", "3.0")];
    for (a, b) in pairs {
        let ab = compare_versions(a, b);
        let ba = compare_versions(b, a);
        let flipped = match ab {
            Ordering::Less => Ordering::Greater,
            Ordering::Equal => Ordering::Equal,
            Ordering::Greater => Ordering::Less,
        };
        assert_eq!(ba, flipped);
    }
}

#[test]
fn text_tokens_compare_lexicographically_lowercased() {
    assert_eq!(compare_versions("1.0a", "1.0b"), Ordering::Less);
    assert_eq!(compare_versions("1.0B", "1.0a"), Ordering::Greater);
    assert_eq!(compare_versions("1.0alpha", "1.0ALPHA"), Ordering::Equal);
}

#[test]
fn number_orders_below_text() {
    // Tokens [1, 0, 1] against [1, 0, "a"]: the third position pits a
    // number against a text token.
    assert_eq!(compare_versions("1.0.1", "1.0a"), Ordering::Less);
}

#[test]
fn zero_padding_makes_trailing_zeros_equal() {
    assert_eq!(compare_versions("3", "3.0.0"), Ordering::Equal);
}

#[test]
fn separators_only_delimit_tokens() {
    assert_eq!(compare_versions("1-2-3", "1.2.3"), Ordering::Equal);
    assert_eq!(compare_versions("v1.2", "V1.2"), Ordering::Equal);
}

#[test]
fn parse_version_tokenizes_runs() {
    let parts = parse_version("1.2.0-beta3");
    assert_eq!(parts.len(), 5);
    assert!(matches!(parts[0], VersionPart::Number(1)));
    assert!(matches!(parts[1], VersionPart::Number(2)));
    assert!(matches!(parts[2], VersionPart::Number(0)));
    match &parts[3] {
        VersionPart::Text(s) => assert_eq!(s.as_str(), "beta"),
        _ => panic!("expected a text token"),
    }
    assert!(matches!(parts[4], VersionPart::Number(3)));
}

#[test]
fn parse_version_lowercases_text_runs() {
    let parts = parse_version("RC2");
    assert_eq!(parts.len(), 2);
    match &parts[0] {
        VersionPart::Text(s) => assert_eq!(s.as_str(), "rc"),
        _ => panic!("expected a text token"),
    }
    assert!(matches!(parts[1], VersionPart::Number(2)));
}

#[test]
fn parse_version_drops_oversized_numeric_runs() {
    // A digit run beyond 64 bits yields no token at all.
    let parts = parse_version("99999999999999999999999.1");
    assert_eq!(parts.len(), 1);
    assert!(matches!(parts[0], VersionPart::Number(1)));
}

#[test]
fn parse_version_of_empty_string_is_empty() {
    assert_eq!(parse_version("").len(), 0);
}
