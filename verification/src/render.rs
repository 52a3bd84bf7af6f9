//! The canonical text of a tree, as a function of its model.
//!
//! Each kind of node is written in exactly one way. The text of a node depends on the
//! node, on the indentation level it stands at, and on how placeholders are drawn;
//! on nothing else.

use vstd::prelude::*;
use crate::formatter::indentation;
use crate::model::{
    CallModel, DefinitionModel, ExpressionModel, FunctionModel, IfModel, ItemModel, LetModel,
    Operator, ProgramModel, StatementModel, TestModel, TopLevelModel,
};
use crate::paint::Marks;
use crate::text::{join, signed_decimal};

verus! {

/// The symbol that writes an operator.
pub open spec fn operator_symbol(op: Operator) -> Seq<char> {
    match op {
        Operator::Mul => "*"@,
        Operator::Div => "/"@,
        Operator::Add => "+"@,
        Operator::Sub => "-"@,
    }
}

/// A comment on a line of its own.
pub open spec fn render_comment(text: Seq<char>, level: nat) -> Seq<char> {
    indentation(level) + "// "@ + text + "\n"@
}

/// An expression. Nothing is written before it and no line break after it.
pub open spec fn render_expression(e: ExpressionModel, level: nat, marks: Marks) -> Seq<char>
    decreases e,
{
    match e {
        ExpressionModel::Expression(inner) => render_expression(*inner, level, marks),
        ExpressionModel::Block(statements) => "{\n"@ + render_statements(
            statements,
            level + 1,
            marks,
        ) + indentation(level) + "}"@,
        ExpressionModel::FunctionCall(call) => render_call(call, level, marks),
        ExpressionModel::Variable(name) => name,
        ExpressionModel::Number(value) => signed_decimal(value as int),
        ExpressionModel::String(value) => value,
        ExpressionModel::If(conditional) => render_if(conditional, level, marks),
        ExpressionModel::Op(lhs, op, rhs) => "("@ + render_expression(*lhs, level, marks) + " "@
            + operator_symbol(op) + " "@ + render_expression(*rhs, level, marks) + ")"@,
        ExpressionModel::ExpressionComment(inner, comment) => render_expression(
            *inner,
            level,
            marks,
        ) + render_comment(comment, level),
        ExpressionModel::Error => marks.expression,
    }
}

/// A call: the name, then the arguments between round brackets.
pub open spec fn render_call(call: CallModel, level: nat, marks: Marks) -> Seq<char>
    decreases call,
{
    call.name + "("@ + render_arguments(call.args, level, marks) + ")"@
}

/// Arguments in order, a comma and a space between each two neighbours.
pub open spec fn render_arguments(args: Seq<ExpressionModel>, level: nat, marks: Marks) -> Seq<
    char,
>
    decreases args,
{
    if args.len() == 0 {
        Seq::empty()
    } else if args.len() == 1 {
        render_expression(args[0], level, marks)
    } else {
        render_arguments(args.drop_last(), level, marks) + ", "@ + render_expression(
            args.last(),
            level,
            marks,
        )
    }
}

/// A conditional. The else-body follows the body at once, with no word between them.
pub open spec fn render_if(conditional: IfModel, level: nat, marks: Marks) -> Seq<char>
    decreases conditional,
{
    "if "@ + render_expression(*conditional.condition, level, marks) + " "@ + render_expression(
        *conditional.body,
        level,
        marks,
    ) + match conditional.else_body {
        Some(else_body) => render_expression(*else_body, level, marks),
        None => Seq::empty(),
    }
}

/// A binding, on a line of its own.
pub open spec fn render_let(binding: LetModel, level: nat, marks: Marks) -> Seq<char>
    decreases binding,
{
    indentation(level) + "let "@ + binding.name + " = "@ + render_expression(
        binding.value,
        level,
        marks,
    ) + ";\n"@
}

/// A statement, on a line of its own (a block inside it spans more).
pub open spec fn render_statement(s: StatementModel, level: nat, marks: Marks) -> Seq<char>
    decreases s,
{
    match s {
        StatementModel::Let(binding) => render_let(binding, level, marks),
        StatementModel::Expression(e) => indentation(level) + render_expression(e, level, marks)
            + ";\n"@,
        StatementModel::Return(e) => indentation(level) + "\u{1F414} "@ + render_expression(
            e,
            level,
            marks,
        ) + ";\n"@,
        StatementModel::Comment(text) => render_comment(text, level),
        StatementModel::Error => indentation(level) + marks.statement,
    }
}

/// Statements one after the other.
pub open spec fn render_statements(
    statements: Seq<StatementModel>,
    level: nat,
    marks: Marks,
) -> Seq<char>
    decreases statements,
{
    if statements.len() == 0 {
        Seq::empty()
    } else {
        render_statements(statements.drop_last(), level, marks) + render_statement(
            statements.last(),
            level,
            marks,
        )
    }
}

/// The head of a function. The entry point `hatch` is written with its reserved sign.
pub open spec fn render_definition(definition: DefinitionModel, level: nat) -> Seq<char> {
    indentation(level) + (if definition.name == "hatch"@ {
        "\u{1F95A} \u{1F423}("@
    } else {
        "\u{1F95A} "@ + definition.name + "("@
    }) + join(definition.params, ", "@) + ") "@
}

/// An example: input, an equals sign, output.
pub open spec fn render_test(test: TestModel, level: nat, marks: Marks) -> Seq<char> {
    render_expression(test.input, level, marks) + " = "@ + render_expression(
        test.output,
        level,
        marks,
    )
}

/// Examples, each on a line of its own that ends in a comma.
pub open spec fn render_tests(tests: Seq<TestModel>, level: nat, marks: Marks) -> Seq<char>
    decreases tests.len(),
{
    if tests.len() == 0 {
        Seq::empty()
    } else {
        render_tests(tests.drop_last(), level, marks) + indentation(level) + render_test(
            tests.last(),
            level,
            marks,
        ) + ",\n"@
    }
}

/// The examples of a function between square brackets, or nothing where it has none.
pub open spec fn render_test_block(tests: Seq<TestModel>, level: nat, marks: Marks) -> Seq<char> {
    if tests.len() > 0 {
        indentation(level) + "[\n"@ + render_tests(tests, level + 1, marks) + indentation(level)
            + "]"@
    } else {
        Seq::empty()
    }
}

/// A function: head, body, the examples between square brackets if there are any, and
/// two line breaks.
pub open spec fn render_function(function: FunctionModel, level: nat, marks: Marks) -> Seq<char> {
    render_definition(function.definition, level) + render_expression(
        function.body,
        level,
        marks,
    ) + render_test_block(function.tests, level, marks) + "\n\n"@
}

/// A top-level item that holds its function.
pub open spec fn render_top_level(item: TopLevelModel, level: nat, marks: Marks) -> Seq<char> {
    match item {
        TopLevelModel::Function(function) => render_function(function, level, marks),
        TopLevelModel::Comment(text) => render_comment(text, level),
    }
}

/// Top-level items in order.
pub open spec fn render_top_levels(items: Seq<TopLevelModel>, level: nat, marks: Marks) -> Seq<
    char,
>
    decreases items.len(),
{
    if items.len() == 0 {
        Seq::empty()
    } else {
        render_top_levels(items.drop_last(), level, marks) + render_top_level(
            items.last(),
            level,
            marks,
        )
    }
}

/// A top-level item that names its function in `functions`.
pub open spec fn render_item(
    item: ItemModel,
    functions: Seq<FunctionModel>,
    level: nat,
    marks: Marks,
) -> Seq<char>
    recommends
        item matches ItemModel::Function(id) ==> id < functions.len(),
{
    match item {
        ItemModel::Function(id) => render_function(functions[id as int], level, marks),
        ItemModel::Comment(text) => render_comment(text, level),
    }
}

/// Items in order, each function looked up in `functions`.
pub open spec fn render_items(
    items: Seq<ItemModel>,
    functions: Seq<FunctionModel>,
    level: nat,
    marks: Marks,
) -> Seq<char>
    decreases items.len(),
{
    if items.len() == 0 {
        Seq::empty()
    } else {
        render_items(items.drop_last(), functions, level, marks) + render_item(
            items.last(),
            functions,
            level,
            marks,
        )
    }
}

/// A resolved program.
pub open spec fn render_program(program: ProgramModel, level: nat, marks: Marks) -> Seq<char> {
    render_items(program.things, program.functions, level, marks)
}

/// The larger of two natural numbers.
pub open spec fn larger(a: nat, b: nat) -> nat {
    if a >= b {
        a
    } else {
        b
    }
}

/// A depth as far as a `usize` can count it.
pub open spec fn saturated(depth: nat) -> usize {
    if depth <= usize::MAX {
        depth as usize
    } else {
        usize::MAX
    }
}

/// How many levels of indentation an expression opens inside itself.
pub open spec fn expression_depth(e: ExpressionModel) -> nat
    decreases e,
{
    match e {
        ExpressionModel::Expression(inner) => expression_depth(*inner),
        ExpressionModel::Block(statements) => 1 + statements_depth(statements),
        ExpressionModel::FunctionCall(call) => arguments_depth(call.args),
        ExpressionModel::Variable(_) => 0,
        ExpressionModel::Number(_) => 0,
        ExpressionModel::String(_) => 0,
        ExpressionModel::If(conditional) => if_depth(conditional),
        ExpressionModel::Op(lhs, _, rhs) => larger(expression_depth(*lhs), expression_depth(*rhs)),
        ExpressionModel::ExpressionComment(inner, _) => expression_depth(*inner),
        ExpressionModel::Error => 0,
    }
}

/// The depth of the deepest argument.
pub open spec fn arguments_depth(args: Seq<ExpressionModel>) -> nat
    decreases args,
{
    if args.len() == 0 {
        0
    } else {
        larger(arguments_depth(args.drop_last()), expression_depth(args.last()))
    }
}

/// The depth of the deepest part of a conditional.
pub open spec fn if_depth(conditional: IfModel) -> nat
    decreases conditional,
{
    larger(
        larger(expression_depth(*conditional.condition), expression_depth(*conditional.body)),
        match conditional.else_body {
            Some(else_body) => expression_depth(*else_body),
            None => 0,
        },
    )
}

/// How many levels of indentation a statement opens inside itself.
pub open spec fn statement_depth(s: StatementModel) -> nat
    decreases s,
{
    match s {
        StatementModel::Let(binding) => expression_depth(binding.value),
        StatementModel::Expression(e) => expression_depth(e),
        StatementModel::Return(e) => expression_depth(e),
        StatementModel::Comment(_) => 0,
        StatementModel::Error => 0,
    }
}

/// The depth of the deepest statement.
pub open spec fn statements_depth(statements: Seq<StatementModel>) -> nat
    decreases statements,
{
    if statements.len() == 0 {
        0
    } else {
        larger(statements_depth(statements.drop_last()), statement_depth(statements.last()))
    }
}

/// The depth of the deeper side of an example.
pub open spec fn test_depth(test: TestModel) -> nat {
    larger(expression_depth(test.input), expression_depth(test.output))
}

/// The depth of the deepest example.
pub open spec fn tests_depth(tests: Seq<TestModel>) -> nat
    decreases tests.len(),
{
    if tests.len() == 0 {
        0
    } else {
        larger(tests_depth(tests.drop_last()), test_depth(tests.last()))
    }
}

/// How many levels of indentation a function opens: its body's, or one more than its
/// deepest example's.
pub open spec fn function_depth(function: FunctionModel) -> nat {
    larger(
        expression_depth(function.body),
        if function.tests.len() > 0 {
            1 + tests_depth(function.tests)
        } else {
            0
        },
    )
}

/// The depth of a top-level item that holds its function.
pub open spec fn top_level_depth(item: TopLevelModel) -> nat {
    match item {
        TopLevelModel::Function(function) => function_depth(function),
        TopLevelModel::Comment(_) => 0,
    }
}

/// The depth of the deepest item.
pub open spec fn top_levels_depth(items: Seq<TopLevelModel>) -> nat
    decreases items.len(),
{
    if items.len() == 0 {
        0
    } else {
        larger(top_levels_depth(items.drop_last()), top_level_depth(items.last()))
    }
}

/// The depth of a top-level item that names its function in `functions`.
pub open spec fn item_depth(item: ItemModel, functions: Seq<FunctionModel>) -> nat
    recommends
        item matches ItemModel::Function(id) ==> id < functions.len(),
{
    match item {
        ItemModel::Function(id) => function_depth(functions[id as int]),
        ItemModel::Comment(_) => 0,
    }
}

/// The depth of the deepest item, each function looked up in `functions`.
pub open spec fn items_depth(items: Seq<ItemModel>, functions: Seq<FunctionModel>) -> nat
    decreases items.len(),
{
    if items.len() == 0 {
        0
    } else {
        larger(items_depth(items.drop_last(), functions), item_depth(items.last(), functions))
    }
}

/// The depth of a resolved program.
pub open spec fn program_depth(program: ProgramModel) -> nat {
    items_depth(program.things, program.functions)
}

/// Whether every item names a function among the first `count` of a table.
pub open spec fn items_resolve(items: Seq<ItemModel>, count: nat) -> bool {
    forall|i: int|
        0 <= i < items.len() ==> (#[trigger] items[i] matches ItemModel::Function(id) ==> id
            < count)
}

/// Whether every item of a resolved program names a function that its table holds.
pub open spec fn program_resolves(program: ProgramModel) -> bool {
    items_resolve(program.things, program.functions.len())
}

/// Whether an expression holds no placeholder.
pub open spec fn expression_whole(e: ExpressionModel) -> bool
    decreases e,
{
    match e {
        ExpressionModel::Expression(inner) => expression_whole(*inner),
        ExpressionModel::Block(statements) => statements_whole(statements),
        ExpressionModel::FunctionCall(call) => arguments_whole(call.args),
        ExpressionModel::Variable(_) => true,
        ExpressionModel::Number(_) => true,
        ExpressionModel::String(_) => true,
        ExpressionModel::If(conditional) => if_whole(conditional),
        ExpressionModel::Op(lhs, _, rhs) => expression_whole(*lhs) && expression_whole(*rhs),
        ExpressionModel::ExpressionComment(inner, _) => expression_whole(*inner),
        ExpressionModel::Error => false,
    }
}

/// Whether no argument holds a placeholder.
pub open spec fn arguments_whole(args: Seq<ExpressionModel>) -> bool
    decreases args,
{
    args.len() > 0 ==> arguments_whole(args.drop_last()) && expression_whole(args.last())
}

/// Whether no part of a conditional holds a placeholder.
pub open spec fn if_whole(conditional: IfModel) -> bool
    decreases conditional,
{
    &&& expression_whole(*conditional.condition)
    &&& expression_whole(*conditional.body)
    &&& match conditional.else_body {
        Some(else_body) => expression_whole(*else_body),
        None => true,
    }
}

/// Whether a statement is no placeholder and holds none.
pub open spec fn statement_whole(s: StatementModel) -> bool
    decreases s,
{
    match s {
        StatementModel::Let(binding) => expression_whole(binding.value),
        StatementModel::Expression(e) => expression_whole(e),
        StatementModel::Return(e) => expression_whole(e),
        StatementModel::Comment(_) => true,
        StatementModel::Error => false,
    }
}

/// Whether no statement is a placeholder or holds one.
pub open spec fn statements_whole(statements: Seq<StatementModel>) -> bool
    decreases statements,
{
    statements.len() > 0 ==> statements_whole(statements.drop_last()) && statement_whole(
        statements.last(),
    )
}

/// Whether neither side of an example holds a placeholder.
pub open spec fn test_whole(test: TestModel) -> bool {
    expression_whole(test.input) && expression_whole(test.output)
}

/// Whether no example holds a placeholder.
pub open spec fn tests_whole(tests: Seq<TestModel>) -> bool
    decreases tests.len(),
{
    tests.len() > 0 ==> tests_whole(tests.drop_last()) && test_whole(tests.last())
}

/// Whether a function holds no placeholder.
pub open spec fn function_whole(function: FunctionModel) -> bool {
    expression_whole(function.body) && tests_whole(function.tests)
}

/// Whether a top-level item holds no placeholder.
pub open spec fn top_level_whole(item: TopLevelModel) -> bool {
    item matches TopLevelModel::Function(function) ==> function_whole(function)
}

/// Whether no top-level item holds a placeholder.
pub open spec fn top_levels_whole(items: Seq<TopLevelModel>) -> bool
    decreases items.len(),
{
    items.len() > 0 ==> top_levels_whole(items.drop_last()) && top_level_whole(items.last())
}

/// Whether no function that the items name holds a placeholder.
pub open spec fn items_whole(items: Seq<ItemModel>, functions: Seq<FunctionModel>) -> bool
    decreases items.len(),
{
    items.len() > 0 ==> items_whole(items.drop_last(), functions) && (
    items.last() matches ItemModel::Function(id) ==> function_whole(functions[id as int]))
}

/// Whether a resolved program holds no placeholder.
pub open spec fn program_whole(program: ProgramModel) -> bool {
    items_whole(program.things, program.functions)
}

/// The text of an expression without placeholders does not depend on how placeholders
/// are drawn.
pub proof fn law_whole_expression_ignores_marks(
    e: ExpressionModel,
    level: nat,
    first: Marks,
    second: Marks,
)
    requires
        expression_whole(e),
    ensures
        render_expression(e, level, first) == render_expression(e, level, second),
    decreases e,
{
    match e {
        ExpressionModel::Expression(inner) => {
            law_whole_expression_ignores_marks(*inner, level, first, second);
        },
        ExpressionModel::Block(statements) => {
            lemma_whole_statements_ignore_marks(statements, level + 1, first, second);
        },
        ExpressionModel::FunctionCall(call) => {
            lemma_whole_call_ignores_marks(call, level, first, second);
        },
        ExpressionModel::If(conditional) => {
            lemma_whole_if_ignores_marks(conditional, level, first, second);
        },
        ExpressionModel::Op(lhs, _, rhs) => {
            law_whole_expression_ignores_marks(*lhs, level, first, second);
            law_whole_expression_ignores_marks(*rhs, level, first, second);
        },
        ExpressionModel::ExpressionComment(inner, _) => {
            law_whole_expression_ignores_marks(*inner, level, first, second);
        },
        _ => {},
    }
}

/// The same of a call.
pub proof fn lemma_whole_call_ignores_marks(
    call: CallModel,
    level: nat,
    first: Marks,
    second: Marks,
)
    requires
        arguments_whole(call.args),
    ensures
        render_call(call, level, first) == render_call(call, level, second),
    decreases call,
{
    lemma_whole_arguments_ignore_marks(call.args, level, first, second);
}

/// The same of arguments.
pub proof fn lemma_whole_arguments_ignore_marks(
    args: Seq<ExpressionModel>,
    level: nat,
    first: Marks,
    second: Marks,
)
    requires
        arguments_whole(args),
    ensures
        render_arguments(args, level, first) == render_arguments(args, level, second),
    decreases args,
{
    if args.len() > 0 {
        lemma_whole_arguments_ignore_marks(args.drop_last(), level, first, second);
        law_whole_expression_ignores_marks(args.last(), level, first, second);
    }
}

/// The same of a conditional.
pub proof fn lemma_whole_if_ignores_marks(
    conditional: IfModel,
    level: nat,
    first: Marks,
    second: Marks,
)
    requires
        if_whole(conditional),
    ensures
        render_if(conditional, level, first) == render_if(conditional, level, second),
    decreases conditional,
{
    law_whole_expression_ignores_marks(*conditional.condition, level, first, second);
    law_whole_expression_ignores_marks(*conditional.body, level, first, second);
    match conditional.else_body {
        Some(else_body) => {
            law_whole_expression_ignores_marks(*else_body, level, first, second);
        },
        None => {},
    }
}

/// The same of a binding.
pub proof fn lemma_whole_let_ignores_marks(
    binding: LetModel,
    level: nat,
    first: Marks,
    second: Marks,
)
    requires
        expression_whole(binding.value),
    ensures
        render_let(binding, level, first) == render_let(binding, level, second),
    decreases binding,
{
    law_whole_expression_ignores_marks(binding.value, level, first, second);
}

/// The same of a statement.
pub proof fn lemma_whole_statement_ignores_marks(
    s: StatementModel,
    level: nat,
    first: Marks,
    second: Marks,
)
    requires
        statement_whole(s),
    ensures
        render_statement(s, level, first) == render_statement(s, level, second),
    decreases s,
{
    match s {
        StatementModel::Let(binding) => {
            lemma_whole_let_ignores_marks(binding, level, first, second);
        },
        StatementModel::Expression(e) => {
            law_whole_expression_ignores_marks(e, level, first, second);
        },
        StatementModel::Return(e) => {
            law_whole_expression_ignores_marks(e, level, first, second);
        },
        _ => {},
    }
}

/// The same of statements.
pub proof fn lemma_whole_statements_ignore_marks(
    statements: Seq<StatementModel>,
    level: nat,
    first: Marks,
    second: Marks,
)
    requires
        statements_whole(statements),
    ensures
        render_statements(statements, level, first) == render_statements(
            statements,
            level,
            second,
        ),
    decreases statements,
{
    if statements.len() > 0 {
        lemma_whole_statements_ignore_marks(statements.drop_last(), level, first, second);
        lemma_whole_statement_ignores_marks(statements.last(), level, first, second);
    }
}

/// The same of an example.
pub proof fn lemma_whole_test_ignores_marks(
    test: TestModel,
    level: nat,
    first: Marks,
    second: Marks,
)
    requires
        test_whole(test),
    ensures
        render_test(test, level, first) == render_test(test, level, second),
{
    law_whole_expression_ignores_marks(test.input, level, first, second);
    law_whole_expression_ignores_marks(test.output, level, first, second);
}

/// The same of examples.
pub proof fn lemma_whole_tests_ignore_marks(
    tests: Seq<TestModel>,
    level: nat,
    first: Marks,
    second: Marks,
)
    requires
        tests_whole(tests),
    ensures
        render_tests(tests, level, first) == render_tests(tests, level, second),
    decreases tests.len(),
{
    if tests.len() > 0 {
        lemma_whole_tests_ignore_marks(tests.drop_last(), level, first, second);
        lemma_whole_test_ignores_marks(tests.last(), level, first, second);
    }
}

/// The text of a function without placeholders does not depend on how placeholders are
/// drawn.
pub proof fn law_whole_function_ignores_marks(
    function: FunctionModel,
    level: nat,
    first: Marks,
    second: Marks,
)
    requires
        function_whole(function),
    ensures
        render_function(function, level, first) == render_function(function, level, second),
{
    law_whole_expression_ignores_marks(function.body, level, first, second);
    lemma_whole_tests_ignore_marks(function.tests, level + 1, first, second);
}

/// The same of a top-level item.
pub proof fn lemma_whole_top_level_ignores_marks(
    item: TopLevelModel,
    level: nat,
    first: Marks,
    second: Marks,
)
    requires
        top_level_whole(item),
    ensures
        render_top_level(item, level, first) == render_top_level(item, level, second),
{
    match item {
        TopLevelModel::Function(function) => {
            law_whole_function_ignores_marks(function, level, first, second);
        },
        TopLevelModel::Comment(_) => {},
    }
}

/// The same of top-level items.
pub proof fn lemma_whole_top_levels_ignore_marks(
    items: Seq<TopLevelModel>,
    level: nat,
    first: Marks,
    second: Marks,
)
    requires
        top_levels_whole(items),
    ensures
        render_top_levels(items, level, first) == render_top_levels(items, level, second),
    decreases items.len(),
{
    if items.len() > 0 {
        lemma_whole_top_levels_ignore_marks(items.drop_last(), level, first, second);
        lemma_whole_top_level_ignores_marks(items.last(), level, first, second);
    }
}

/// A program without placeholders has one canonical text, whatever the terminal: its
/// text does not depend on how placeholders are drawn.
pub proof fn law_whole_program_ignores_marks(
    program: ProgramModel,
    level: nat,
    first: Marks,
    second: Marks,
)
    requires
        program_whole(program),
    ensures
        render_program(program, level, first) == render_program(program, level, second),
{
    lemma_whole_items_ignore_marks(program.things, program.functions, level, first, second);
}

/// The same of items that name their functions in a table.
proof fn lemma_whole_items_ignore_marks(
    items: Seq<ItemModel>,
    functions: Seq<FunctionModel>,
    level: nat,
    first: Marks,
    second: Marks,
)
    requires
        items_whole(items, functions),
    ensures
        render_items(items, functions, level, first) == render_items(
            items,
            functions,
            level,
            second,
        ),
    decreases items.len(),
{
    if items.len() > 0 {
        lemma_whole_items_ignore_marks(items.drop_last(), functions, level, first, second);
        match items.last() {
            ItemModel::Function(id) => {
                law_whole_function_ignores_marks(functions[id as int], level, first, second);
            },
            ItemModel::Comment(_) => {},
        }
    }
}

/// One part of a list is no deeper than the list.
pub proof fn lemma_statements_depth(statements: Seq<StatementModel>, i: int)
    requires
        0 <= i < statements.len(),
    ensures
        statement_depth(statements[i]) <= statements_depth(statements),
    decreases statements.len(),
{
    if i < statements.len() - 1 {
        lemma_statements_depth(statements.drop_last(), i);
    }
}

/// One argument is no deeper than the list of arguments.
pub proof fn lemma_arguments_depth(args: Seq<ExpressionModel>, i: int)
    requires
        0 <= i < args.len(),
    ensures
        expression_depth(args[i]) <= arguments_depth(args),
    decreases args.len(),
{
    if i < args.len() - 1 {
        lemma_arguments_depth(args.drop_last(), i);
    }
}

/// One example is no deeper than the list of examples.
pub proof fn lemma_tests_depth(tests: Seq<TestModel>, i: int)
    requires
        0 <= i < tests.len(),
    ensures
        test_depth(tests[i]) <= tests_depth(tests),
    decreases tests.len(),
{
    if i < tests.len() - 1 {
        lemma_tests_depth(tests.drop_last(), i);
    }
}

/// One item is no deeper than the list of items.
pub proof fn lemma_top_levels_depth(items: Seq<TopLevelModel>, i: int)
    requires
        0 <= i < items.len(),
    ensures
        top_level_depth(items[i]) <= top_levels_depth(items),
    decreases items.len(),
{
    if i < items.len() - 1 {
        lemma_top_levels_depth(items.drop_last(), i);
    }
}

/// One item is no deeper than the list of items.
pub proof fn lemma_items_depth(items: Seq<ItemModel>, functions: Seq<FunctionModel>, i: int)
    requires
        0 <= i < items.len(),
    ensures
        item_depth(items[i], functions) <= items_depth(items, functions),
    decreases items.len(),
{
    if i < items.len() - 1 {
        lemma_items_depth(items.drop_last(), functions, i);
    }
}

} // verus!
