use wryneck::diagnostics::{compose_report, ParseError};

fn expected(tokens: &[&str]) -> Vec<String> {
    tokens.iter().map(|token| token.to_string()).collect()
}

const INPUT: &str = "let x = 5;\nlet y = ;\n";

const EXCERPT: &str = "1: let x = 5;\n2: let y = \u{1b}[31m;\u{1b}[0m\n-----------^\n";

#[test]
fn headline_says_what_went_wrong() {
    assert_eq!(ParseError::InvalidToken { location: 19 }.headline(), "Invalid token at 19");
    assert_eq!(
        ParseError::UnrecognizedEOF { location: 21, expected: expected(&["\"}\"", "\";\""]) }
            .headline(),
        "Unexpected end of file. Expected one of \"}\", \";\""
    );
    assert_eq!(
        ParseError::UnrecognizedEOF { location: 0, expected: vec![] }.headline(),
        "Unexpected end of file. Expected one of "
    );
    assert_eq!(
        ParseError::UnrecognizedToken {
            token: (19, String::from(";"), 20),
            expected: expected(&["\"(\""]),
        }
        .headline(),
        "Unrecognized token `;` found at 19..20"
    );
    assert_eq!(
        ParseError::ExtraToken { token: (0, String::from("}"), 1) }.headline(),
        "Extra token `}` found at 0..1"
    );
    assert_eq!(ParseError::User { error: String::from("too many eggs") }.headline(), "too many eggs");
}

#[test]
fn follow_up_names_the_expected_tokens() {
    assert_eq!(ParseError::InvalidToken { location: 19 }.follow_up("painted"), None);
    assert_eq!(
        ParseError::UnrecognizedEOF { location: 21, expected: expected(&["a"]) }
            .follow_up("painted"),
        Some(String::from("Parse error: painted"))
    );
    assert_eq!(
        ParseError::UnrecognizedToken {
            token: (19, String::from(";"), 20),
            expected: expected(&["\"(\"", "\"{\"", "number"]),
        }
        .follow_up("painted"),
        Some(String::from("Expected: \"(\" or \"{\" or number"))
    );
    assert_eq!(ParseError::ExtraToken { token: (0, String::from("}"), 1) }.follow_up("p"), None);
    assert_eq!(ParseError::User { error: String::from("e") }.follow_up("p"), None);
}

#[test]
fn span_covers_the_token() {
    assert_eq!(ParseError::InvalidToken { location: 19 }.span(), Some(19..20));
    assert_eq!(
        ParseError::UnrecognizedToken { token: (3, String::from("xy"), 5), expected: vec![] }.span(),
        Some(3..5)
    );
    assert_eq!(ParseError::ExtraToken { token: (0, String::from("}"), 1) }.span(), Some(0..1));
    assert_eq!(ParseError::UnrecognizedEOF { location: 3, expected: vec![] }.span(), None);
    assert_eq!(ParseError::User { error: String::new() }.span(), None);
}

#[test]
fn fits_tells_whether_the_span_can_be_shown() {
    let egg = "a\u{1F95A}b";
    assert!(ParseError::InvalidToken { location: 0 }.fits(egg));
    assert!(ParseError::InvalidToken { location: 1 }.fits(egg));
    assert!(ParseError::InvalidToken { location: 2 }.fits(egg));
    assert!(ParseError::InvalidToken { location: 5 }.fits(egg));
    assert!(!ParseError::InvalidToken { location: 6 }.fits(egg));
    assert!(!ParseError::InvalidToken { location: usize::MAX }.fits(egg));
    assert!(ParseError::ExtraToken { token: (1, String::from("x"), 6) }.fits(egg));
    assert!(ParseError::ExtraToken { token: (6, String::new(), 6) }.fits(egg));
    assert!(!ParseError::ExtraToken { token: (1, String::from("x"), 7) }.fits(egg));
    assert!(!ParseError::ExtraToken { token: (5, String::from("x"), 1) }.fits(egg));
    assert!(ParseError::ExtraToken { token: (3, String::from("x"), 5) }.fits(egg));
    assert!(ParseError::UnrecognizedToken { token: (5, String::from("b"), 6), expected: vec![] }
        .fits(egg));
    assert!(ParseError::UnrecognizedToken { token: (4, String::from("b"), 6), expected: vec![] }
        .fits(egg));
    assert!(!ParseError::UnrecognizedToken { token: (4, String::from("b"), 7), expected: vec![] }
        .fits(egg));
    assert!(ParseError::UnrecognizedEOF { location: 99, expected: vec![] }.fits(egg));
    assert!(ParseError::User { error: String::from("e") }.fits(""));
}

#[test]
fn invalid_token_is_told_before_its_excerpt() {
    let error = ParseError::InvalidToken { location: 19 };
    let report = compose_report(&error, INPUT, String::from("<first>"), None);
    assert_eq!(report, format!("Parse error: <first>\n{}", EXCERPT));
}

#[test]
fn invalid_token_inside_a_character_is_shown_behind_it() {
    let error = ParseError::InvalidToken { location: 2 };
    let report = compose_report(&error, "a\u{1F95A}b", String::from("<first>"), None);
    assert_eq!(
        report,
        "Parse error: <first>\n1: a\u{1F95A}\u{1b}[31m\u{1b}[0mb\n--------^\n"
    );
}

#[test]
fn early_end_of_input_is_told_without_an_excerpt() {
    let error = ParseError::UnrecognizedEOF { location: 21, expected: expected(&["\"}\""]) };
    let report =
        compose_report(&error, INPUT, String::from("<first>"), Some(String::from("<second>")));
    assert_eq!(report, "<second>\n");
}

#[test]
fn unrecognized_token_is_told_with_what_was_expected() {
    let error = ParseError::UnrecognizedToken {
        token: (19, String::from(";"), 20),
        expected: expected(&["\"(\""]),
    };
    let report =
        compose_report(&error, INPUT, String::from("<first>"), Some(String::from("<second>")));
    assert_eq!(report, format!("<first>\n<second>\n{}", EXCERPT));
}

#[test]
fn extra_token_is_told_with_an_excerpt() {
    let error = ParseError::ExtraToken { token: (19, String::from(";"), 20) };
    let report = compose_report(&error, INPUT, String::from("<first>"), None);
    assert_eq!(report, format!("<first>\n{}", EXCERPT));
}

#[test]
fn user_error_is_told_on_one_line() {
    let error = ParseError::User { error: String::from("too many eggs") };
    let report = compose_report(&error, INPUT, String::from("<first>"), None);
    assert_eq!(report, "<first>\n");
}
