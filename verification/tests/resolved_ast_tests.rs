use id_collections::Id;
use wryneck::base_ast;
use wryneck::formatter::{format_with, try_format, Format, Formatter};
use wryneck::paint::ErrorMarks;
use wryneck::resolved_ast::{
    ASTString, Comment, ExprSymbol, Expression, Function, FunctionCall, FunctionDefinition,
    FunctionId, If, Let, Opcode, Parameter, Program, Statement, Test, TopLevel, Variable,
};

fn raw_num(value: i32) -> Box<base_ast::Expression<'static>> {
    Box::new(base_ast::Expression::Number(value))
}

fn raw_var(name: &'static str) -> Box<base_ast::Expression<'static>> {
    Box::new(base_ast::Expression::Variable(base_ast::Variable { name }))
}

fn raw_string(value: &'static str) -> Box<base_ast::Expression<'static>> {
    Box::new(base_ast::Expression::String(base_ast::ASTString { value }))
}

fn raw_let(
    name: &'static str,
    value: Box<base_ast::Expression<'static>>,
) -> base_ast::Statement<'static> {
    base_ast::Statement::Let(base_ast::Let { name, value })
}

fn raw_block(statements: Vec<base_ast::Statement<'static>>) -> Box<base_ast::Expression<'static>> {
    Box::new(base_ast::Expression::Block(statements))
}

fn raw_function(
    name: &'static str,
    params: Vec<&'static str>,
    body: Box<base_ast::Expression<'static>>,
    tests: Vec<(i32, i32)>,
) -> base_ast::Function<'static> {
    base_ast::Function {
        definition: base_ast::FunctionDefinition {
            name,
            params: params.into_iter().map(|name| base_ast::Parameter { name }).collect(),
        },
        body,
        tests: tests
            .into_iter()
            .map(|(input, output)| base_ast::Test { input: raw_num(input), output: raw_num(output) })
            .collect(),
    }
}

fn num(value: i32) -> Box<Expression<'static>> {
    Box::new(Expression::Number(value))
}

fn var(name: &'static str) -> Box<Expression<'static>> {
    Box::new(Expression::Variable(Variable { name }))
}

fn plain_text(e: &Expression) -> String {
    let mut fmt = Formatter::new();
    e.format_with(&mut fmt, &ErrorMarks::plain());
    assert_eq!(fmt.indent_level, 0);
    fmt.string
}

fn sample_program() -> base_ast::Program<'static> {
    base_ast::Program {
        things: vec![
            base_ast::TopLevel::Function(raw_function(
                "hatch",
                vec![],
                raw_block(vec![
                    base_ast::Statement::Comment(base_ast::Comment::new("// does this work?")),
                    raw_let(
                        "x",
                        raw_block(vec![
                            raw_let("test", raw_num(420)),
                            base_ast::Statement::Comment(base_ast::Comment::new("// testing")),
                        ]),
                    ),
                    raw_let("str", raw_string("\"hello\"")),
                    base_ast::Statement::Expression(raw_string("\"hello\"")),
                    base_ast::Statement::Expression(Box::new(base_ast::Expression::If(
                        base_ast::If {
                            condition: raw_var("true"),
                            body: raw_block(vec![
                                base_ast::Statement::Expression(Box::new(
                                    base_ast::Expression::If(base_ast::If {
                                        condition: raw_var("false"),
                                        body: raw_block(vec![raw_let("x", raw_num(420))]),
                                        else_body: Some(raw_block(vec![raw_let(
                                            "x",
                                            raw_string("\"hello\""),
                                        )])),
                                    }),
                                )),
                                base_ast::Statement::Expression(raw_string("\"world\"")),
                            ]),
                            else_body: None,
                        },
                    ))),
                    raw_let(
                        "y",
                        Box::new(base_ast::Expression::FunctionCall(base_ast::FunctionCall {
                            name: "count_Pigeons",
                            args: vec![raw_var("test")],
                        })),
                    ),
                    base_ast::Statement::Return(Box::new(base_ast::Expression::Op(
                        Box::new(base_ast::Expression::Expression(Box::new(
                            base_ast::Expression::Op(
                                raw_num(69),
                                base_ast::Opcode::Add,
                                raw_block(vec![base_ast::Statement::Return(Box::new(
                                    base_ast::Expression::Op(
                                        raw_num(30),
                                        base_ast::Opcode::Add,
                                        raw_num(1),
                                    ),
                                ))]),
                            ),
                        ))),
                        base_ast::Opcode::Mul,
                        raw_num(3),
                    ))),
                ]),
                vec![],
            )),
            base_ast::TopLevel::Comment(base_ast::Comment::new("// does things")),
            base_ast::TopLevel::Function(raw_function(
                "count_Pigeons",
                vec!["pigeons"],
                raw_block(vec![
                    base_ast::Statement::Return(raw_num(1)),
                    base_ast::Statement::Comment(base_ast::Comment::new("// and stuffs")),
                ]),
                vec![(2, 0), (4, 0)],
            )),
        ],
    }
}

#[test]
fn test_parse() {
    let program: Program = sample_program().into();

    let output = "\u{1F95A} \u{1F423}() {
    // does this work?
    let x = {
        let test = 420;
        // testing
    };
    let str = \"hello\";
    \"hello\";
    if true {
        if false {
            let x = 420;
        }{
            let x = \"hello\";
        };
        \"world\";
    };
    let y = count_Pigeons(test);
    \u{1F414} ((69 + {
        \u{1F414} (30 + 1);
    }) * 3);
}

// does things
\u{1F95A} count_Pigeons(pigeons) {
    \u{1F414} 1;
    // and stuffs
}[
    2 = 0,
    4 = 0,
]

";

    assert_eq!(wryneck::formatter::format(&program), output);
}

#[test]
fn resolved_program_renders_as_the_raw_program() {
    let mut fmt = Formatter::new();
    sample_program().format_with(&mut fmt, &ErrorMarks::plain());
    let resolved = Program::from(sample_program());
    assert_eq!(format_with(&resolved, &ErrorMarks::plain()), fmt.string);
}

#[test]
fn resolver_numbers_functions_in_declaration_order() {
    let raw = base_ast::Program {
        things: vec![
            base_ast::TopLevel::Comment(base_ast::Comment::new("// first")),
            base_ast::TopLevel::Function(raw_function("a", vec![], raw_block(vec![]), vec![])),
            base_ast::TopLevel::Function(raw_function("b", vec!["x"], raw_block(vec![]), vec![])),
            base_ast::TopLevel::Comment(base_ast::Comment::new("// between")),
            base_ast::TopLevel::Function(raw_function("c", vec![], raw_block(vec![]), vec![(1, 2)])),
        ],
    };
    let program = Program::from(raw);
    assert_eq!(program.things.len(), 5);
    let ids: Vec<usize> = program
        .things
        .iter()
        .filter_map(|thing| match thing {
            TopLevel::Function(id) => Some(id.0),
            TopLevel::Comment(_) => None,
        })
        .collect();
    assert_eq!(ids, vec![0, 1, 2]);
    assert!(matches!(&program.things[0], TopLevel::Comment(comment) if comment.text == "first"));
    assert!(matches!(&program.things[1], TopLevel::Function(FunctionId(0))));
    assert!(matches!(&program.things[2], TopLevel::Function(FunctionId(1))));
    assert!(matches!(&program.things[3], TopLevel::Comment(comment) if comment.text == "between"));
    assert!(matches!(&program.things[4], TopLevel::Function(FunctionId(2))));
    assert!(program.resolves());
    assert_eq!(
        format_with(&program, &ErrorMarks::plain()),
        "// first\n\u{1F95A} a() {\n}\n\n\u{1F95A} b(x) {\n}\n\n// between\n\u{1F95A} c() {\n}[\n    1 = 2,\n]\n\n"
    );
}

#[test]
fn resolver_keeps_an_empty_program_empty() {
    let program = Program::from(base_ast::Program { things: vec![] });
    assert!(program.things.is_empty());
    assert!(program.resolves());
    assert_eq!(program.nesting(), 0);
    assert_eq!(wryneck::formatter::format(&program), "");
}

#[test]
fn resolver_keeps_duplicate_names_apart() {
    let raw = base_ast::Program {
        things: vec![
            base_ast::TopLevel::Function(raw_function("f", vec![], raw_num(1), vec![])),
            base_ast::TopLevel::Function(raw_function("f", vec![], raw_num(2), vec![])),
        ],
    };
    let program = Program::from(raw);
    assert!(matches!(&program.things[0], TopLevel::Function(FunctionId(0))));
    assert!(matches!(&program.things[1], TopLevel::Function(FunctionId(1))));
    assert_eq!(
        format_with(&program, &ErrorMarks::plain()),
        "\u{1F95A} f() 1\n\n\u{1F95A} f() 2\n\n"
    );
}

#[test]
fn program_with_a_dangling_identifier_does_not_resolve() {
    let mut program = Program::from(base_ast::Program {
        things: vec![base_ast::TopLevel::Function(raw_function(
            "f",
            vec![],
            raw_block(vec![]),
            vec![],
        ))],
    });
    assert!(program.resolves());
    assert!(try_format(&program).is_some());
    program.things.push(TopLevel::Function(FunctionId(1)));
    assert!(!program.resolves());
    assert!(try_format(&program).is_none());
}

#[test]
fn try_format_gives_the_canonical_text() {
    let program = Program::from(sample_program());
    assert_eq!(try_format(&program), Some(wryneck::formatter::format(&program)));
}

#[test]
fn nesting_counts_the_levels_of_indentation() {
    assert_eq!(Expression::Number(1).nesting(), 0);
    assert_eq!(Expression::Block(vec![]).nesting(), 1);
    let nested = Expression::Op(
        Box::new(Expression::Block(vec![Statement::Expression(Box::new(Expression::Block(
            vec![Statement::Error],
        )))])),
        Opcode::Add,
        Box::new(Expression::Block(vec![])),
    );
    assert_eq!(nested.nesting(), 2);
    assert_eq!(Statement::Return(Box::new(Expression::Block(vec![]))).nesting(), 1);
    let call = FunctionCall { name: "f", args: vec![num(1), Box::new(Expression::Block(vec![]))] };
    assert_eq!(call.nesting(), 1);
    let conditional = If {
        condition: var("c"),
        body: Box::new(Expression::Block(vec![])),
        else_body: Some(Box::new(Expression::Block(vec![Statement::Expression(Box::new(
            Expression::Block(vec![]),
        ))]))),
    };
    assert_eq!(conditional.nesting(), 2);
    let test = Test { input: num(1), output: Box::new(Expression::Block(vec![])) };
    assert_eq!(test.nesting(), 1);
    let function = Function {
        definition: FunctionDefinition { name: "f", params: vec![] },
        body: num(1),
        tests: vec![Test { input: num(1), output: Box::new(Expression::Block(vec![])) }],
    };
    assert_eq!(function.nesting(), 2);
    assert_eq!(Program::from(sample_program()).nesting(), 3);
}

#[test]
fn conversion_keeps_every_node() {
    let raw = base_ast::Expression::Block(vec![
        raw_let("x", Box::new(base_ast::Expression::Error)),
        base_ast::Statement::Error,
        base_ast::Statement::Expression(Box::new(base_ast::Expression::ExpressionComment((
            raw_num(-5),
            base_ast::Comment::new("// five"),
        )))),
        base_ast::Statement::Return(Box::new(base_ast::Expression::Op(
            raw_var("a"),
            base_ast::Opcode::Div,
            Box::new(base_ast::Expression::FunctionCall(base_ast::FunctionCall {
                name: "f",
                args: vec![raw_num(1), raw_string("\"s\"")],
            })),
        ))),
    ]);
    let expected = "{\n    let x = error;\n    error!\n    -5    // five\n;\n    \u{1F414} (a / f(1, \"s\"));\n}";
    let mut fmt = Formatter::new();
    raw.format_with(&mut fmt, &ErrorMarks::plain());
    assert_eq!(fmt.string, expected);
    assert_eq!(plain_text(&Expression::from(raw)), expected);
}

#[test]
fn boxed_expression_converts_like_the_expression() {
    let e = Expression::from(Box::new(base_ast::Expression::Op(
        raw_num(1),
        base_ast::Opcode::Sub,
        raw_num(2),
    )));
    assert_eq!(plain_text(&e), "(1 - 2)");
}

#[test]
fn leaves_convert_field_by_field() {
    assert_eq!(Comment::from(base_ast::Comment { text: "kept as it is " }).text, "kept as it is ");
    assert_eq!(Comment::new("// kept whole").text, "// kept whole");
    assert_eq!(Parameter::from(base_ast::Parameter { name: "p" }).name, "p");
    assert_eq!(Variable::from(base_ast::Variable { name: "v" }).name, "v");
    assert_eq!(ASTString::from(base_ast::ASTString { value: "\"s\"" }).value, "\"s\"");
    assert!(matches!(Opcode::from(base_ast::Opcode::Mul), Opcode::Mul));
    assert!(matches!(Opcode::from(base_ast::Opcode::Div), Opcode::Div));
    assert!(matches!(Opcode::from(base_ast::Opcode::Add), Opcode::Add));
    assert!(matches!(Opcode::from(base_ast::Opcode::Sub), Opcode::Sub));
    assert_eq!(Opcode::Sub.to_string(), "-");
    assert_eq!(Parameter { name: "p" }.to_string(), "p");
    assert_eq!(Variable { name: "v" }.to_string(), "v");
    assert_eq!(ASTString { value: "\"s\"" }.to_string(), "\"s\"");
}

#[test]
fn structures_convert_with_their_parts() {
    let binding = Let::from(base_ast::Let { name: "x", value: raw_num(1) });
    assert_eq!(binding.name, "x");
    let conditional = If::from(base_ast::If {
        condition: raw_var("c"),
        body: raw_block(vec![]),
        else_body: Some(raw_num(2)),
    });
    assert!(conditional.else_body.is_some());
    let call = FunctionCall::from(base_ast::FunctionCall { name: "f", args: vec![raw_num(1)] });
    assert_eq!(call.args.len(), 1);
    let test = Test::from(base_ast::Test { input: raw_num(1), output: raw_num(2) });
    let mut fmt = Formatter::new();
    test.format_with(&mut fmt, &ErrorMarks::plain());
    assert_eq!(fmt.string, "1 = 2");
    let definition = FunctionDefinition::from(base_ast::FunctionDefinition {
        name: "f",
        params: vec![base_ast::Parameter { name: "a" }, base_ast::Parameter { name: "b" }],
    });
    assert_eq!(definition.params.len(), 2);
    assert_eq!(definition.params[1].name, "b");
    let function = Function::from(raw_function("g", vec!["a"], raw_num(1), vec![(1, 2), (3, 4)]));
    let mut fmt = Formatter::new();
    function.format_with(&mut fmt, &ErrorMarks::plain());
    assert_eq!(fmt.string, "\u{1F95A} g(a) 1[\n    1 = 2,\n    3 = 4,\n]\n\n");
    let statement = Statement::from(base_ast::Statement::Return(raw_num(7)));
    let mut fmt = Formatter::new();
    statement.format_with(&mut fmt, &ErrorMarks::plain());
    assert_eq!(fmt.string, "\u{1F414} 7;\n");
}

#[test]
fn resolved_function_comment_has_only_a_name() {
    let function = Function::comment("note");
    assert_eq!(function.definition.name, "note");
    assert!(function.definition.params.is_empty());
    assert!(function.tests.is_empty());
    assert!(matches!(*function.body, Expression::Error));
}

#[test]
fn symbols_convert_and_render() {
    let raw = base_ast::ExprSymbol::Op(
        Box::new(base_ast::ExprSymbol::NumSymbol("1")),
        base_ast::Opcode::Sub,
        Box::new(base_ast::ExprSymbol::Error),
    );
    let symbol = ExprSymbol::from(raw);
    assert_eq!(symbol.to_string_with(&ErrorMarks::plain()), "(1 - error)");
}

#[test]
fn resolved_nodes_render_at_the_level_of_the_formatter() {
    let mut fmt = Formatter::new();
    fmt.indent();
    Statement::Let(Let { name: "x", value: Box::new(Expression::Block(vec![Statement::Error])) })
        .format_with(&mut fmt, &ErrorMarks::plain());
    assert_eq!(fmt.string, "    let x = {\n        error!\n    };\n");
    assert_eq!(fmt.indent_level, 1);
}

#[test]
fn function_looks_up_an_identifier_in_the_table() {
    let program = Program::from(base_ast::Program {
        things: vec![
            base_ast::TopLevel::Function(raw_function("a", vec![], raw_num(1), vec![])),
            base_ast::TopLevel::Comment(base_ast::Comment::new("// note")),
            base_ast::TopLevel::Function(raw_function("b", vec![], raw_num(2), vec![])),
        ],
    });
    assert_eq!(program.function(FunctionId(0)).unwrap().definition.name, "a");
    assert_eq!(program.function(FunctionId(1)).unwrap().definition.name, "b");
    assert!(program.function(FunctionId(2)).is_none());
    assert!(program.function(FunctionId(usize::MAX)).is_none());
}

#[test]
fn function_id_is_its_index() {
    assert_eq!(FunctionId::from_index(3), FunctionId(3));
    assert_eq!(FunctionId(7).to_index(), 7);
    assert!(FunctionId(1) < FunctionId(2));
}
