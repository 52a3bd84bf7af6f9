use wryneck::diagnostics::{parse_error_report, parse_errors_report, ParseError};

#[test]
fn reports_follow_the_colour_switch() {
    let input = "let x = 5;\nlet y = ;\n";
    let excerpt = "1: let x = 5;\n2: let y = \u{1b}[31m;\u{1b}[0m\n-----------^\n";
    let red = "\u{1b}[31m";
    let reset = "\u{1b}[0m";

    colored::control::set_override(true);
    let report = parse_error_report(&ParseError::InvalidToken { location: 19 }, input);
    assert_eq!(
        report,
        format!("Parse error: {}Invalid token at 19{}\n{}", red, reset, excerpt)
    );

    let report = parse_error_report(
        &ParseError::UnrecognizedEOF { location: 21, expected: vec![String::from("\"}\"")] },
        input,
    );
    assert_eq!(
        report,
        format!(
            "{}Parse error: {}Unexpected end of file. Expected one of \"}}\"{}{}{}\n",
            red, red, reset, red, reset
        )
    );

    let report = parse_error_report(
        &ParseError::UnrecognizedToken {
            token: (19, String::from(";"), 20),
            expected: vec![String::from("\"(\""), String::from("number")],
        },
        input,
    );
    assert_eq!(
        report,
        format!(
            "{}Unrecognized token `;` found at 19..20{}\n{}Expected: \"(\" or number{}\n{}",
            red, reset, red, reset, excerpt
        )
    );

    let report =
        parse_error_report(&ParseError::ExtraToken { token: (19, String::from(";"), 20) }, input);
    assert_eq!(report, format!("{}Extra token `;` found at 19..20{}\n{}", red, reset, excerpt));

    let report = parse_error_report(&ParseError::User { error: String::from("no eggs") }, input);
    assert_eq!(report, format!("{}no eggs{}\n", red, reset));

    let inner = format!("a{}b{}", reset, reset);
    let report = parse_error_report(&ParseError::User { error: inner }, input);
    assert_eq!(
        report,
        format!("{}a{}{}b{}{}{}\n", red, reset, red, reset, red, reset)
    );

    colored::control::set_override(false);
    let report = parse_error_report(&ParseError::InvalidToken { location: 19 }, input);
    assert_eq!(report, format!("Parse error: Invalid token at 19\n{}", excerpt));
    let report = parse_error_report(
        &ParseError::UnrecognizedEOF { location: 21, expected: vec![String::from("\"}\"")] },
        input,
    );
    assert_eq!(report, "Parse error: Unexpected end of file. Expected one of \"}\"\n");

    let errors = vec![
        ParseError::User { error: String::from("first") },
        ParseError::ExtraToken { token: (0, String::from("let"), 3) },
    ];
    let reports = parse_errors_report(&errors, input);
    assert_eq!(reports.len(), 2);
    assert_eq!(reports[0], "first\n");
    assert_eq!(
        reports[1],
        "Extra token `let` found at 0..3\n1: \u{1b}[31mlet\u{1b}[0m x = 5;\n---^\n"
    );
    assert!(parse_errors_report(&vec![], input).is_empty());
    colored::control::unset_override();
}
