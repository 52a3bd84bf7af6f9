use wryneck::formatter::Formatter;

#[test]
fn new_formatter_is_empty_at_level_zero() {
    let fmt = Formatter::new();
    assert_eq!(fmt.indent_level, 0);
    assert_eq!(fmt.string, "");
}

#[test]
fn indent_and_unindent_move_one_level() {
    let mut fmt = Formatter::new();
    fmt.indent();
    assert_eq!(fmt.indent_level, 1);
    fmt.indent();
    assert_eq!(fmt.indent_level, 2);
    fmt.unindent();
    assert_eq!(fmt.indent_level, 1);
    fmt.unindent();
    assert_eq!(fmt.indent_level, 0);
    assert_eq!(fmt.string, "");
}

#[test]
fn push_indent_writes_four_spaces_per_level() {
    let mut fmt = Formatter::new();
    fmt.push_indent();
    assert_eq!(fmt.string, "");
    fmt.indent();
    fmt.push_indent();
    assert_eq!(fmt.string, "    ");
    fmt.indent();
    fmt.indent();
    fmt.push_indent();
    assert_eq!(fmt.string, "                ");
    assert_eq!(fmt.indent_level, 3);
}

#[test]
fn push_str_appends_without_indentation() {
    let mut fmt = Formatter::new();
    fmt.indent();
    fmt.push_str("a");
    fmt.push_str("bc");
    assert_eq!(fmt.string, "abc");
}

#[test]
fn push_string_appends_without_indentation() {
    let mut fmt = Formatter::new();
    fmt.indent();
    fmt.push_string(String::from("x = "));
    fmt.push_string(String::from("1"));
    assert_eq!(fmt.string, "x = 1");
}

#[test]
fn push_str_indented_writes_the_indentation_first() {
    let mut fmt = Formatter::new();
    fmt.indent();
    fmt.indent();
    fmt.push_str_indented("x");
    assert_eq!(fmt.string, "        x");
    assert_eq!(fmt.indent_level, 2);
}

#[test]
fn push_string_indented_writes_the_indentation_first() {
    let mut fmt = Formatter::new();
    fmt.indent();
    fmt.push_string_indented(String::from("let"));
    fmt.unindent();
    fmt.push_string_indented(String::from("!"));
    assert_eq!(fmt.string, "    let!");
}

#[test]
fn push_str_keeps_what_was_written() {
    let mut fmt = Formatter::new();
    fmt.push_str("\u{1F95A} ");
    fmt.indent();
    fmt.push_str_indented("\u{1F423}");
    assert_eq!(fmt.string, "\u{1F95A}     \u{1F423}");
}
