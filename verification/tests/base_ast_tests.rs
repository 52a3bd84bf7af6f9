use wryneck::base_ast::{
    ASTString, Comment, ExprSymbol, Expression, Function, FunctionCall, FunctionDefinition, If, Let,
    Opcode, Parameter, Program, Statement, Test, TopLevel, Variable,
};
use wryneck::formatter::{Format, Formatter};
use wryneck::paint::ErrorMarks;

fn num(value: i32) -> Box<Expression<'static>> {
    Box::new(Expression::Number(value))
}

fn var(name: &'static str) -> Box<Expression<'static>> {
    Box::new(Expression::Variable(Variable { name }))
}

fn text(node: &dyn Fn(&mut Formatter, &ErrorMarks)) -> String {
    let mut fmt = Formatter::new();
    node(&mut fmt, &ErrorMarks::plain());
    assert_eq!(fmt.indent_level, 0);
    fmt.string
}

fn expression_text(e: &Expression) -> String {
    text(&|fmt, marks| e.format_with(fmt, marks))
}

fn statement_text(s: &Statement) -> String {
    text(&|fmt, marks| s.format_with(fmt, marks))
}

#[test]
fn comment_new_strips_marker_and_surrounding_whitespace() {
    assert_eq!(Comment::new("// does things").text, "does things");
    assert_eq!(Comment::new("//does things").text, "does things");
    assert_eq!(Comment::new("// a  ").text, "a");
    assert_eq!(Comment::new("// \t  spaced  ").text, "spaced");
    assert_eq!(Comment::new("// two  words \r\n").text, "two  words");
    assert_eq!(Comment::new("//").text, "");
    assert_eq!(Comment::new("//   ").text, "");
    assert_eq!(Comment::new("/// doc").text, "/ doc");
    assert_eq!(Comment::new("//\u{a0}\u{3000}\u{1F95A} egg\u{2028}").text, "\u{1F95A} egg");
}

fn listed_as_white_space(c: char) -> bool {
    let code = c as u32;
    (0x09..=0x0d).contains(&code)
        || (0x2000..=0x200a).contains(&code)
        || [0x20, 0x85, 0xa0, 0x1680, 0x2028, 0x2029, 0x202f, 0x205f, 0x3000].contains(&code)
}

#[test]
fn comment_new_strips_exactly_the_white_space_characters() {
    let mut lexeme = String::new();
    let mut kept = String::new();
    for code in 0..=0x10ffff_u32 {
        let c = match char::from_u32(code) {
            Some(c) => c,
            None => continue,
        };
        assert_eq!(c.is_whitespace(), listed_as_white_space(c), "U+{:04X}", code);
        lexeme.clear();
        lexeme.push_str("//");
        lexeme.push(c);
        lexeme.push('x');
        lexeme.push(c);
        kept.clear();
        if listed_as_white_space(c) {
            kept.push('x');
        } else {
            kept.push(c);
            kept.push('x');
            kept.push(c);
        }
        assert_eq!(Comment::new(&lexeme).text, kept, "U+{:04X}", code);
    }
}

#[test]
fn comment_renders_on_its_own_line() {
    let comment = Comment::new("// does things");
    assert_eq!(text(&|fmt, marks| comment.format_with(fmt, marks)), "// does things\n");
    let mut fmt = Formatter::new();
    fmt.indent();
    comment.format_with(&mut fmt, &ErrorMarks::plain());
    assert_eq!(fmt.string, "    // does things\n");
}

#[test]
fn function_comment_has_only_a_name() {
    let function = Function::comment("note");
    assert_eq!(function.definition.name, "note");
    assert!(function.definition.params.is_empty());
    assert!(function.tests.is_empty());
    assert!(matches!(*function.body, Expression::Error));
    assert_eq!(
        text(&|fmt, marks| function.format_with(fmt, marks)),
        "\u{1F95A} note() error\n\n"
    );
}

#[test]
fn literals_render_verbatim() {
    assert_eq!(expression_text(&Expression::Number(0)), "0");
    assert_eq!(expression_text(&Expression::Number(-17)), "-17");
    assert_eq!(expression_text(&Expression::Number(i32::MIN)), "-2147483648");
    assert_eq!(expression_text(&Expression::Variable(Variable { name: "pigeons" })), "pigeons");
    assert_eq!(
        expression_text(&Expression::String(ASTString { value: "\"hello\"" })),
        "\"hello\""
    );
}

#[test]
fn display_methods_return_the_text() {
    assert_eq!(Parameter { name: "pigeons" }.to_string(), "pigeons");
    assert_eq!(Variable { name: "x" }.to_string(), "x");
    assert_eq!(ASTString { value: "\"a b\"" }.to_string(), "\"a b\"");
    assert_eq!(Opcode::Mul.to_string(), "*");
    assert_eq!(Opcode::Div.to_string(), "/");
    assert_eq!(Opcode::Add.to_string(), "+");
    assert_eq!(Opcode::Sub.to_string(), "-");
}

#[test]
fn grouping_wrapper_is_transparent() {
    let e = Expression::Expression(var("x"));
    assert_eq!(expression_text(&e), "x");
}

#[test]
fn operation_is_always_parenthesized() {
    for (op, symbol) in
        [(Opcode::Mul, "*"), (Opcode::Div, "/"), (Opcode::Add, "+"), (Opcode::Sub, "-")]
    {
        let e = Expression::Op(num(1), op, num(2));
        assert_eq!(expression_text(&e), format!("(1 {} 2)", symbol));
    }
}

#[test]
fn nested_operations_keep_every_pair_of_brackets() {
    let inner = Expression::Op(num(1), Opcode::Add, num(2));
    let outer = Expression::Op(
        Box::new(inner),
        Opcode::Mul,
        Box::new(Expression::Op(var("a"), Opcode::Sub, Box::new(Expression::Expression(num(3))))),
    );
    assert_eq!(expression_text(&outer), "((1 + 2) * (a - 3))");
}

#[test]
fn call_joins_arguments_with_commas() {
    let none = Expression::FunctionCall(FunctionCall { name: "f", args: vec![] });
    assert_eq!(expression_text(&none), "f()");
    let one = Expression::FunctionCall(FunctionCall { name: "count_Pigeons", args: vec![var("test")] });
    assert_eq!(expression_text(&one), "count_Pigeons(test)");
    let three = Expression::FunctionCall(FunctionCall {
        name: "g",
        args: vec![num(1), var("b"), Box::new(Expression::Op(num(2), Opcode::Div, num(3)))],
    });
    assert_eq!(expression_text(&three), "g(1, b, (2 / 3))");
}

#[test]
fn empty_block_renders_braces_on_two_lines() {
    assert_eq!(expression_text(&Expression::Block(vec![])), "{\n}");
}

#[test]
fn block_indents_statements_and_closes_at_its_own_level() {
    let block = Expression::Block(vec![
        Statement::Let(Let { name: "x", value: num(1) }),
        Statement::Expression(Box::new(Expression::Block(vec![Statement::Return(var("x"))]))),
    ]);
    assert_eq!(
        expression_text(&block),
        "{\n    let x = 1;\n    {\n        \u{1F414} x;\n    };\n}"
    );
}

#[test]
fn statements_render_on_their_own_lines() {
    assert_eq!(statement_text(&Statement::Let(Let { name: "y", value: var("x") })), "let y = x;\n");
    assert_eq!(statement_text(&Statement::Expression(var("x"))), "x;\n");
    assert_eq!(statement_text(&Statement::Return(num(1))), "\u{1F414} 1;\n");
    assert_eq!(statement_text(&Statement::Comment(Comment { text: "and stuffs" })), "// and stuffs\n");
    assert_eq!(statement_text(&Statement::Error), "error!\n");
}

#[test]
fn let_renders_name_and_value() {
    let binding = Let { name: "total", value: Box::new(Expression::Op(num(1), Opcode::Add, num(2))) };
    assert_eq!(text(&|fmt, marks| binding.format_with(fmt, marks)), "let total = (1 + 2);\n");
}

#[test]
fn if_without_else_renders_condition_and_body() {
    let conditional = If {
        condition: var("ready"),
        body: Box::new(Expression::Block(vec![])),
        else_body: None,
    };
    assert_eq!(text(&|fmt, marks| conditional.format_with(fmt, marks)), "if ready {\n}");
}

#[test]
fn nested_if_follows_the_closing_brace_without_a_keyword() {
    let inner = If {
        condition: var("c2"),
        body: Box::new(Expression::Block(vec![Statement::Expression(num(2))])),
        else_body: None,
    };
    let outer = Expression::If(If {
        condition: var("c1"),
        body: Box::new(Expression::Block(vec![Statement::Expression(num(1))])),
        else_body: Some(Box::new(Expression::If(inner))),
    });
    assert_eq!(expression_text(&outer), "if c1 {\n    1;\n}if c2 {\n    2;\n}");
}

#[test]
fn expression_comment_follows_the_expression() {
    let e = Expression::ExpressionComment((num(420), Comment { text: "testing" }));
    assert_eq!(expression_text(&e), "420// testing\n");
    let mut fmt = Formatter::new();
    fmt.indent();
    e.format_with(&mut fmt, &ErrorMarks::plain());
    assert_eq!(fmt.string, "420    // testing\n");
}

#[test]
fn error_nodes_render_as_marks_and_the_rest_still_renders() {
    let block = Expression::Block(vec![
        Statement::Let(Let { name: "x", value: Box::new(Expression::Error) }),
        Statement::Error,
        Statement::Return(Box::new(Expression::Op(
            num(1),
            Opcode::Add,
            Box::new(Expression::Error),
        ))),
    ]);
    assert_eq!(
        expression_text(&block),
        "{\n    let x = error;\n    error!\n    \u{1F414} (1 + error);\n}"
    );
    let marks = ErrorMarks { expression: String::from("<E>"), statement: String::from("<S>\n") };
    let mut fmt = Formatter::new();
    block.format_with(&mut fmt, &marks);
    assert_eq!(fmt.string, "{\n    let x = <E>;\n    <S>\n    \u{1F414} (1 + <E>);\n}");
}

#[test]
fn one_error_changes_only_its_own_place() {
    let valid = Expression::Op(
        Box::new(Expression::Op(num(1), Opcode::Add, num(2))),
        Opcode::Mul,
        Box::new(Expression::Block(vec![Statement::Return(var("x"))])),
    );
    let broken = Expression::Op(
        Box::new(Expression::Op(num(1), Opcode::Add, Box::new(Expression::Error))),
        Opcode::Mul,
        Box::new(Expression::Block(vec![Statement::Return(var("x"))])),
    );
    assert_eq!(expression_text(&valid), "((1 + 2) * {\n    \u{1F414} x;\n})");
    assert_eq!(expression_text(&broken), "((1 + error) * {\n    \u{1F414} x;\n})");
}

#[test]
fn definition_joins_parameters() {
    let none = FunctionDefinition { name: "f", params: vec![] };
    assert_eq!(text(&|fmt, marks| none.format_with(fmt, marks)), "\u{1F95A} f() ");
    let two = FunctionDefinition {
        name: "count_Pigeons",
        params: vec![Parameter { name: "pigeons" }, Parameter { name: "limit" }],
    };
    assert_eq!(
        text(&|fmt, marks| two.format_with(fmt, marks)),
        "\u{1F95A} count_Pigeons(pigeons, limit) "
    );
}

#[test]
fn hatch_renders_as_the_reserved_entry_point() {
    let function = Function {
        definition: FunctionDefinition { name: "hatch", params: vec![] },
        body: Box::new(Expression::Block(vec![Statement::Return(num(1))])),
        tests: vec![],
    };
    assert_eq!(
        text(&|fmt, marks| function.format_with(fmt, marks)),
        "\u{1F95A} \u{1F423}() {\n    \u{1F414} 1;\n}\n\n"
    );
    let with_params = FunctionDefinition { name: "hatch", params: vec![Parameter { name: "a" }] };
    assert_eq!(
        text(&|fmt, marks| with_params.format_with(fmt, marks)),
        "\u{1F95A} \u{1F423}(a) "
    );
    let other = FunctionDefinition { name: "hatched", params: vec![] };
    assert_eq!(text(&|fmt, marks| other.format_with(fmt, marks)), "\u{1F95A} hatched() ");
}

#[test]
fn test_renders_input_equals_output() {
    let test = Test { input: num(2), output: num(0) };
    assert_eq!(text(&|fmt, marks| test.format_with(fmt, marks)), "2 = 0");
}

#[test]
fn function_with_tests_renders_them_between_square_brackets() {
    let function = Function {
        definition: FunctionDefinition {
            name: "count_Pigeons",
            params: vec![Parameter { name: "pigeons" }],
        },
        body: Box::new(Expression::Block(vec![
            Statement::Return(num(1)),
            Statement::Comment(Comment { text: "and stuffs" }),
        ])),
        tests: vec![Test { input: num(2), output: num(0) }, Test { input: num(4), output: num(0) }],
    };
    assert_eq!(
        text(&|fmt, marks| function.format_with(fmt, marks)),
        "\u{1F95A} count_Pigeons(pigeons) {\n    \u{1F414} 1;\n    // and stuffs\n}[\n    2 = 0,\n    4 = 0,\n]\n\n"
    );
}

#[test]
fn top_level_comment_precedes_function_on_its_own_line() {
    let program = Program {
        things: vec![
            TopLevel::Comment(Comment::new("// does things")),
            TopLevel::Function(Function {
                definition: FunctionDefinition { name: "f", params: vec![] },
                body: Box::new(Expression::Block(vec![])),
                tests: vec![],
            }),
        ],
    };
    assert_eq!(
        text(&|fmt, marks| program.format_with(fmt, marks)),
        "// does things\n\u{1F95A} f() {\n}\n\n"
    );
}

#[test]
fn empty_program_renders_nothing() {
    let program = Program { things: vec![] };
    assert_eq!(text(&|fmt, marks| program.format_with(fmt, marks)), "");
}

#[test]
fn format_appends_to_what_the_buffer_holds() {
    let mut fmt = Formatter::new();
    fmt.push_str("x = ");
    Expression::Op(num(1), Opcode::Add, num(2)).format(&mut fmt);
    assert_eq!(fmt.string, "x = (1 + 2)");
    assert_eq!(fmt.indent_level, 0);
}

#[test]
fn symbols_render_fully_parenthesized() {
    let symbol = ExprSymbol::Op(
        Box::new(ExprSymbol::NumSymbol("1")),
        Opcode::Add,
        Box::new(ExprSymbol::Op(
            Box::new(ExprSymbol::NumSymbol("2")),
            Opcode::Mul,
            Box::new(ExprSymbol::Error),
        )),
    );
    assert_eq!(symbol.to_string_with(&ErrorMarks::plain()), "(1 + (2 * error))");
    assert_eq!(ExprSymbol::NumSymbol("42").to_string(), "42");
}
