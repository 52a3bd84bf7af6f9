use wryneck::base_ast::{Expression, Statement};
use wryneck::formatter::{Format, Formatter};
use wryneck::paint::ErrorMarks;

#[test]
fn error_marks_follow_the_colour_switch() {
    colored::control::set_override(true);
    let marks = ErrorMarks::painted();
    assert_eq!(marks.expression, "\u{1b}[31merror\u{1b}[0m");
    assert_eq!(marks.statement, "\u{1b}[31merror!\n\u{1b}[0m");
    let block = Expression::Block(vec![
        Statement::Error,
        Statement::Expression(Box::new(Expression::Error)),
    ]);
    let mut fmt = Formatter::new();
    block.format(&mut fmt);
    assert_eq!(
        fmt.string,
        "{\n    \u{1b}[31merror!\n\u{1b}[0m    \u{1b}[31merror\u{1b}[0m;\n}"
    );

    let whole = Expression::Block(vec![Statement::Expression(Box::new(Expression::Number(1)))]);
    let mut fmt = Formatter::new();
    whole.format(&mut fmt);
    assert_eq!(fmt.string, "{\n    1;\n}");

    colored::control::set_override(false);
    let marks = ErrorMarks::painted();
    assert_eq!(marks.expression, "error");
    assert_eq!(marks.statement, "error!\n");
    let mut fmt = Formatter::new();
    block.format(&mut fmt);
    assert_eq!(fmt.string, "{\n    error!\n    error;\n}");

    let plain = ErrorMarks::plain();
    assert_eq!(plain.expression, "error");
    assert_eq!(plain.statement, "error!\n");
    colored::control::unset_override();
}
