//! A node and what stands around it.
//!
//! The text of a tree is put together from the texts of its parts: what is written
//! before a part and after it depends on where the part stands, never on the part. So
//! a placeholder changes the text only where it stands itself, and an operation keeps
//! its brackets however deep it stands.

use vstd::prelude::*;
use crate::formatter::indentation;
use crate::model::{
    CallModel, DefinitionModel, ExpressionModel, FunctionModel, IfModel, LetModel, Operator,
    StatementModel, TestModel, TopLevelModel,
};
use crate::paint::Marks;
use crate::render::{
    operator_symbol, render_arguments, render_call, render_comment, render_definition,
    render_expression, render_if, render_statement, render_statements, render_test_block,
    render_top_levels,
};

verus! {

/// A place for an expression inside an expression: the way down from the whole to the
/// place, with what is passed on the way.
pub enum ExpressionContext {
    /// The place is the whole.
    Hole,
    /// Inside an explicit grouping.
    Expression(Box<ExpressionContext>),
    /// Inside one statement of a block, between the statements before and after it.
    Block(Seq<StatementModel>, Box<StatementContext>, Seq<StatementModel>),
    /// Inside one argument of a call, between the arguments before and after it.
    Argument(Seq<char>, Seq<ExpressionModel>, Box<ExpressionContext>, Seq<ExpressionModel>),
    /// Inside the condition of a conditional.
    Condition(Box<ExpressionContext>, ExpressionModel, Option<ExpressionModel>),
    /// Inside the body of a conditional.
    Body(ExpressionModel, Box<ExpressionContext>, Option<ExpressionModel>),
    /// Inside the else-body of a conditional.
    ElseBody(ExpressionModel, ExpressionModel, Box<ExpressionContext>),
    /// Inside the left side of an operation.
    Left(Box<ExpressionContext>, Operator, ExpressionModel),
    /// Inside the right side of an operation.
    Right(ExpressionModel, Operator, Box<ExpressionContext>),
    /// Inside an expression that a comment trails.
    Commented(Box<ExpressionContext>, Seq<char>),
}

/// A place for an expression inside a statement.
pub enum StatementContext {
    /// Inside the value of a binding.
    Let(Seq<char>, ExpressionContext),
    /// Inside an expression statement.
    Expression(ExpressionContext),
    /// Inside the expression of a return.
    Return(ExpressionContext),
}

/// The box of an optional expression.
pub open spec fn boxed(e: Option<ExpressionModel>) -> Option<Box<ExpressionModel>> {
    match e {
        Some(e) => Some(Box::new(e)),
        None => None,
    }
}

/// The expression that a context makes around `e`.
pub open spec fn fill(context: ExpressionContext, e: ExpressionModel) -> ExpressionModel
    decreases context,
{
    match context {
        ExpressionContext::Hole => e,
        ExpressionContext::Expression(inner) => ExpressionModel::Expression(
            Box::new(fill(*inner, e)),
        ),
        ExpressionContext::Block(before, inner, after) => ExpressionModel::Block(
            before.push(fill_statement(*inner, e)) + after,
        ),
        ExpressionContext::Argument(name, before, inner, after) => ExpressionModel::FunctionCall(
            CallModel { name, args: before.push(fill(*inner, e)) + after },
        ),
        ExpressionContext::Condition(inner, body, else_body) => ExpressionModel::If(
            IfModel {
                condition: Box::new(fill(*inner, e)),
                body: Box::new(body),
                else_body: boxed(else_body),
            },
        ),
        ExpressionContext::Body(condition, inner, else_body) => ExpressionModel::If(
            IfModel {
                condition: Box::new(condition),
                body: Box::new(fill(*inner, e)),
                else_body: boxed(else_body),
            },
        ),
        ExpressionContext::ElseBody(condition, body, inner) => ExpressionModel::If(
            IfModel {
                condition: Box::new(condition),
                body: Box::new(body),
                else_body: Some(Box::new(fill(*inner, e))),
            },
        ),
        ExpressionContext::Left(inner, op, rhs) => ExpressionModel::Op(
            Box::new(fill(*inner, e)),
            op,
            Box::new(rhs),
        ),
        ExpressionContext::Right(lhs, op, inner) => ExpressionModel::Op(
            Box::new(lhs),
            op,
            Box::new(fill(*inner, e)),
        ),
        ExpressionContext::Commented(inner, comment) => ExpressionModel::ExpressionComment(
            Box::new(fill(*inner, e)),
            comment,
        ),
    }
}

/// The statement that a context makes around `e`.
pub open spec fn fill_statement(context: StatementContext, e: ExpressionModel) -> StatementModel
    decreases context,
{
    match context {
        StatementContext::Let(name, inner) => StatementModel::Let(
            LetModel { name, value: fill(inner, e) },
        ),
        StatementContext::Expression(inner) => StatementModel::Expression(fill(inner, e)),
        StatementContext::Return(inner) => StatementModel::Return(fill(inner, e)),
    }
}

/// The indentation level at the place, when the whole stands at `level`.
pub open spec fn level_inside(context: ExpressionContext, level: nat) -> nat
    decreases context,
{
    match context {
        ExpressionContext::Hole => level,
        ExpressionContext::Expression(inner) => level_inside(*inner, level),
        ExpressionContext::Block(_, inner, _) => level_inside_statement(*inner, level + 1),
        ExpressionContext::Argument(_, _, inner, _) => level_inside(*inner, level),
        ExpressionContext::Condition(inner, _, _) => level_inside(*inner, level),
        ExpressionContext::Body(_, inner, _) => level_inside(*inner, level),
        ExpressionContext::ElseBody(_, _, inner) => level_inside(*inner, level),
        ExpressionContext::Left(inner, _, _) => level_inside(*inner, level),
        ExpressionContext::Right(_, _, inner) => level_inside(*inner, level),
        ExpressionContext::Commented(inner, _) => level_inside(*inner, level),
    }
}

/// The indentation level at the place, when the statement stands at `level`.
pub open spec fn level_inside_statement(context: StatementContext, level: nat) -> nat
    decreases context,
{
    match context {
        StatementContext::Let(_, inner) => level_inside(inner, level),
        StatementContext::Expression(inner) => level_inside(inner, level),
        StatementContext::Return(inner) => level_inside(inner, level),
    }
}

/// An optional expression's text, or nothing.
pub open spec fn render_optional(e: Option<ExpressionModel>, level: nat, marks: Marks) -> Seq<
    char,
> {
    match e {
        Some(e) => render_expression(e, level, marks),
        None => Seq::empty(),
    }
}

/// Arguments that come first, with the comma that parts them from the next.
pub open spec fn arguments_before(args: Seq<ExpressionModel>, level: nat, marks: Marks) -> Seq<
    char,
> {
    if args.len() == 0 {
        Seq::empty()
    } else {
        render_arguments(args, level, marks) + ", "@
    }
}

/// Arguments that come last, with the comma that parts them from the one before.
pub open spec fn arguments_after(args: Seq<ExpressionModel>, level: nat, marks: Marks) -> Seq<
    char,
> {
    if args.len() == 0 {
        Seq::empty()
    } else {
        ", "@ + render_arguments(args, level, marks)
    }
}

/// What is written before the place.
pub open spec fn text_before(context: ExpressionContext, level: nat, marks: Marks) -> Seq<char>
    decreases context,
{
    match context {
        ExpressionContext::Hole => Seq::empty(),
        ExpressionContext::Expression(inner) => text_before(*inner, level, marks),
        ExpressionContext::Block(before, inner, _) => "{\n"@ + render_statements(
            before,
            level + 1,
            marks,
        ) + text_before_in_statement(*inner, level + 1, marks),
        ExpressionContext::Argument(name, before, inner, _) => name + "("@ + arguments_before(
            before,
            level,
            marks,
        ) + text_before(*inner, level, marks),
        ExpressionContext::Condition(inner, _, _) => "if "@ + text_before(*inner, level, marks),
        ExpressionContext::Body(condition, inner, _) => "if "@ + render_expression(
            condition,
            level,
            marks,
        ) + " "@ + text_before(*inner, level, marks),
        ExpressionContext::ElseBody(condition, body, inner) => "if "@ + render_expression(
            condition,
            level,
            marks,
        ) + " "@ + render_expression(body, level, marks) + text_before(*inner, level, marks),
        ExpressionContext::Left(inner, _, _) => "("@ + text_before(*inner, level, marks),
        ExpressionContext::Right(lhs, op, inner) => "("@ + render_expression(lhs, level, marks)
            + " "@ + operator_symbol(op) + " "@ + text_before(*inner, level, marks),
        ExpressionContext::Commented(inner, _) => text_before(*inner, level, marks),
    }
}

/// What is written before the place, from the beginning of the statement.
pub open spec fn text_before_in_statement(
    context: StatementContext,
    level: nat,
    marks: Marks,
) -> Seq<char>
    decreases context,
{
    match context {
        StatementContext::Let(name, inner) => indentation(level) + "let "@ + name + " = "@
            + text_before(inner, level, marks),
        StatementContext::Expression(inner) => indentation(level) + text_before(
            inner,
            level,
            marks,
        ),
        StatementContext::Return(inner) => indentation(level) + "\u{1F414} "@ + text_before(
            inner,
            level,
            marks,
        ),
    }
}

/// What is written after the place.
pub open spec fn text_after(context: ExpressionContext, level: nat, marks: Marks) -> Seq<char>
    decreases context,
{
    match context {
        ExpressionContext::Hole => Seq::empty(),
        ExpressionContext::Expression(inner) => text_after(*inner, level, marks),
        ExpressionContext::Block(_, inner, after) => text_after_in_statement(
            *inner,
            level + 1,
            marks,
        ) + render_statements(after, level + 1, marks) + indentation(level) + "}"@,
        ExpressionContext::Argument(_, _, inner, after) => text_after(*inner, level, marks)
            + arguments_after(after, level, marks) + ")"@,
        ExpressionContext::Condition(inner, body, else_body) => text_after(*inner, level, marks)
            + " "@ + render_expression(body, level, marks) + render_optional(
            else_body,
            level,
            marks,
        ),
        ExpressionContext::Body(_, inner, else_body) => text_after(*inner, level, marks)
            + render_optional(else_body, level, marks),
        ExpressionContext::ElseBody(_, _, inner) => text_after(*inner, level, marks),
        ExpressionContext::Left(inner, op, rhs) => text_after(*inner, level, marks) + " "@
            + operator_symbol(op) + " "@ + render_expression(rhs, level, marks) + ")"@,
        ExpressionContext::Right(_, _, inner) => text_after(*inner, level, marks) + ")"@,
        ExpressionContext::Commented(inner, comment) => text_after(*inner, level, marks)
            + render_comment(comment, level),
    }
}

/// What is written after the place, up to the end of the statement.
pub open spec fn text_after_in_statement(
    context: StatementContext,
    level: nat,
    marks: Marks,
) -> Seq<char>
    decreases context,
{
    match context {
        StatementContext::Let(_, inner) => text_after(inner, level, marks) + ";\n"@,
        StatementContext::Expression(inner) => text_after(inner, level, marks) + ";\n"@,
        StatementContext::Return(inner) => text_after(inner, level, marks) + ";\n"@,
    }
}

/// Statements one after the other render one after the other.
pub proof fn lemma_statements_concat(
    first: Seq<StatementModel>,
    second: Seq<StatementModel>,
    level: nat,
    marks: Marks,
)
    ensures
        render_statements(first + second, level, marks) == render_statements(first, level, marks)
            + render_statements(second, level, marks),
    decreases second.len(),
{
    if second.len() == 0 {
    } else {
        lemma_statements_concat(first, second.drop_last(), level, marks);
        assert((first + second).drop_last() =~= first + second.drop_last());
    }
}

/// A statement between others renders between them.
pub proof fn lemma_statement_between(
    before: Seq<StatementModel>,
    s: StatementModel,
    after: Seq<StatementModel>,
    level: nat,
    marks: Marks,
)
    ensures
        render_statements(before.push(s) + after, level, marks) == render_statements(
            before,
            level,
            marks,
        ) + render_statement(s, level, marks) + render_statements(after, level, marks),
{
    lemma_statements_concat(before.push(s), after, level, marks);
    assert(before.push(s).drop_last() =~= before);
}

/// Arguments one after the other render one after the other, a comma between the
/// two groups.
pub proof fn lemma_arguments_concat(
    first: Seq<ExpressionModel>,
    second: Seq<ExpressionModel>,
    level: nat,
    marks: Marks,
)
    requires
        first.len() > 0,
        second.len() > 0,
    ensures
        render_arguments(first + second, level, marks) == render_arguments(first, level, marks)
            + ", "@ + render_arguments(second, level, marks),
    decreases second.len(),
{
    assert((first + second).drop_last() =~= first + second.drop_last());
    if second.len() == 1 {
    } else {
        lemma_arguments_concat(first, second.drop_last(), level, marks);
    }
}

/// An argument between others renders between them.
pub proof fn lemma_argument_between(
    before: Seq<ExpressionModel>,
    e: ExpressionModel,
    after: Seq<ExpressionModel>,
    level: nat,
    marks: Marks,
)
    ensures
        render_arguments(before.push(e) + after, level, marks) == arguments_before(
            before,
            level,
            marks,
        ) + render_expression(e, level, marks) + arguments_after(after, level, marks),
{
    let one = seq![e];
    assert(before.push(e) =~= before + one);
    if before.len() > 0 {
        lemma_arguments_concat(before, one, level, marks);
    } else {
    }
    if after.len() > 0 {
        lemma_arguments_concat(before.push(e), after, level, marks);
    } else {
    }
}

/// A part inside a statement of a block: the texts around it, grouped anew.
proof fn lemma_around_block(
    open: Seq<char>,
    before: Seq<char>,
    b: Seq<char>,
    p: Seq<char>,
    a: Seq<char>,
    after: Seq<char>,
    indent: Seq<char>,
    close: Seq<char>,
)
    ensures
        open + (before + (b + p + a) + after) + indent + close == (open + before + b) + p + (a
            + after + indent + close),
{
}

/// A part inside an argument of a call: the texts around it, grouped anew.
proof fn lemma_around_argument(
    name: Seq<char>,
    open: Seq<char>,
    before: Seq<char>,
    b: Seq<char>,
    p: Seq<char>,
    a: Seq<char>,
    after: Seq<char>,
    close: Seq<char>,
)
    ensures
        name + open + (before + (b + p + a) + after) + close == (name + open + before + b) + p + (a
            + after + close),
{
}

/// A part inside the condition of a conditional: the texts around it, grouped anew.
proof fn lemma_around_condition(
    word: Seq<char>,
    b: Seq<char>,
    p: Seq<char>,
    a: Seq<char>,
    space: Seq<char>,
    body: Seq<char>,
    otherwise: Seq<char>,
)
    ensures
        word + (b + p + a) + space + body + otherwise == (word + b) + p + (a + space + body
            + otherwise),
{
}

/// A part inside the body of a conditional: the texts around it, grouped anew.
proof fn lemma_around_body(
    word: Seq<char>,
    condition: Seq<char>,
    space: Seq<char>,
    b: Seq<char>,
    p: Seq<char>,
    a: Seq<char>,
    otherwise: Seq<char>,
)
    ensures
        word + condition + space + (b + p + a) + otherwise == (word + condition + space + b) + p
            + (a + otherwise),
{
}

/// A part inside the else-body of a conditional: the texts around it, grouped anew.
proof fn lemma_around_else_body(
    word: Seq<char>,
    condition: Seq<char>,
    space: Seq<char>,
    body: Seq<char>,
    b: Seq<char>,
    p: Seq<char>,
    a: Seq<char>,
)
    ensures
        word + condition + space + body + (b + p + a) == (word + condition + space + body + b) + p
            + a,
{
}

/// A part inside the left side of an operation: the texts around it, grouped anew.
proof fn lemma_around_left(
    open: Seq<char>,
    b: Seq<char>,
    p: Seq<char>,
    a: Seq<char>,
    space: Seq<char>,
    symbol: Seq<char>,
    rhs: Seq<char>,
    close: Seq<char>,
)
    ensures
        open + (b + p + a) + space + symbol + space + rhs + close == (open + b) + p + (a + space
            + symbol + space + rhs + close),
{
}

/// A part inside the right side of an operation: the texts around it, grouped anew.
proof fn lemma_around_right(
    open: Seq<char>,
    lhs: Seq<char>,
    space: Seq<char>,
    symbol: Seq<char>,
    b: Seq<char>,
    p: Seq<char>,
    a: Seq<char>,
    close: Seq<char>,
)
    ensures
        open + lhs + space + symbol + space + (b + p + a) + close == (open + lhs + space + symbol
            + space + b) + p + (a + close),
{
}

/// A part inside a commented expression: the texts around it, grouped anew.
proof fn lemma_around_commented(b: Seq<char>, p: Seq<char>, a: Seq<char>, comment: Seq<char>)
    ensures
        (b + p + a) + comment == b + p + (a + comment),
{
}

/// A part inside a statement: the texts around it, grouped anew.
proof fn lemma_around_statement(
    head: Seq<char>,
    b: Seq<char>,
    p: Seq<char>,
    a: Seq<char>,
    end: Seq<char>,
)
    ensures
        head + (b + p + a) + end == (head + b) + p + (a + end),
{
}

/// The text of a whole is the text of a part between what its place puts before and
/// after it; the part is written at the level of its place.
pub proof fn law_text_of_part(
    context: ExpressionContext,
    e: ExpressionModel,
    level: nat,
    marks: Marks,
)
    ensures
        render_expression(fill(context, e), level, marks) == text_before(context, level, marks)
            + render_expression(e, level_inside(context, level), marks) + text_after(
            context,
            level,
            marks,
        ),
    decreases context,
{
    let p = render_expression(e, level_inside(context, level), marks);
    match context {
        ExpressionContext::Hole => {
        },
        ExpressionContext::Expression(inner) => {
            law_text_of_part(*inner, e, level, marks);
        },
        ExpressionContext::Block(before, inner, after) => {
            law_text_of_part_in_statement(*inner, e, level + 1, marks);
            lemma_statement_between(before, fill_statement(*inner, e), after, level + 1, marks);
            lemma_around_block(
                "{\n"@,
                render_statements(before, level + 1, marks),
                text_before_in_statement(*inner, level + 1, marks),
                p,
                text_after_in_statement(*inner, level + 1, marks),
                render_statements(after, level + 1, marks),
                indentation(level),
                "}"@,
            );
        },
        ExpressionContext::Argument(name, before, inner, after) => {
            law_text_of_part(*inner, e, level, marks);
            lemma_argument_between(before, fill(*inner, e), after, level, marks);
            let call = CallModel { name, args: before.push(fill(*inner, e)) + after };
            assert(render_expression(fill(context, e), level, marks) == render_call(
                call,
                level,
                marks,
            ));
            lemma_around_argument(
                name,
                "("@,
                arguments_before(before, level, marks),
                text_before(*inner, level, marks),
                p,
                text_after(*inner, level, marks),
                arguments_after(after, level, marks),
                ")"@,
            );
        },
        ExpressionContext::Condition(inner, body, else_body) => {
            law_text_of_part(*inner, e, level, marks);
            let conditional = IfModel {
                condition: Box::new(fill(*inner, e)),
                body: Box::new(body),
                else_body: boxed(else_body),
            };
            assert(render_expression(fill(context, e), level, marks) == render_if(
                conditional,
                level,
                marks,
            ));
            lemma_around_condition(
                "if "@,
                text_before(*inner, level, marks),
                p,
                text_after(*inner, level, marks),
                " "@,
                render_expression(body, level, marks),
                render_optional(else_body, level, marks),
            );
        },
        ExpressionContext::Body(condition, inner, else_body) => {
            law_text_of_part(*inner, e, level, marks);
            let conditional = IfModel {
                condition: Box::new(condition),
                body: Box::new(fill(*inner, e)),
                else_body: boxed(else_body),
            };
            assert(render_expression(fill(context, e), level, marks) == render_if(
                conditional,
                level,
                marks,
            ));
            lemma_around_body(
                "if "@,
                render_expression(condition, level, marks),
                " "@,
                text_before(*inner, level, marks),
                p,
                text_after(*inner, level, marks),
                render_optional(else_body, level, marks),
            );
        },
        ExpressionContext::ElseBody(condition, body, inner) => {
            law_text_of_part(*inner, e, level, marks);
            let conditional = IfModel {
                condition: Box::new(condition),
                body: Box::new(body),
                else_body: Some(Box::new(fill(*inner, e))),
            };
            assert(render_expression(fill(context, e), level, marks) == render_if(
                conditional,
                level,
                marks,
            ));
            lemma_around_else_body(
                "if "@,
                render_expression(condition, level, marks),
                " "@,
                render_expression(body, level, marks),
                text_before(*inner, level, marks),
                p,
                text_after(*inner, level, marks),
            );
        },
        ExpressionContext::Left(inner, op, rhs) => {
            law_text_of_part(*inner, e, level, marks);
            lemma_around_left(
                "("@,
                text_before(*inner, level, marks),
                p,
                text_after(*inner, level, marks),
                " "@,
                operator_symbol(op),
                render_expression(rhs, level, marks),
                ")"@,
            );
        },
        ExpressionContext::Right(lhs, op, inner) => {
            law_text_of_part(*inner, e, level, marks);
            lemma_around_right(
                "("@,
                render_expression(lhs, level, marks),
                " "@,
                operator_symbol(op),
                text_before(*inner, level, marks),
                p,
                text_after(*inner, level, marks),
                ")"@,
            );
        },
        ExpressionContext::Commented(inner, comment) => {
            law_text_of_part(*inner, e, level, marks);
            lemma_around_commented(
                text_before(*inner, level, marks),
                p,
                text_after(*inner, level, marks),
                render_comment(comment, level),
            );
        },
    }
}

/// The text of a statement is the text of a part between what its place puts before
/// and after it.
pub proof fn law_text_of_part_in_statement(
    context: StatementContext,
    e: ExpressionModel,
    level: nat,
    marks: Marks,
)
    ensures
        render_statement(fill_statement(context, e), level, marks) == text_before_in_statement(
            context,
            level,
            marks,
        ) + render_expression(e, level_inside_statement(context, level), marks)
            + text_after_in_statement(context, level, marks),
    decreases context,
{
    let p = render_expression(e, level_inside_statement(context, level), marks);
    match context {
        StatementContext::Let(name, inner) => {
            law_text_of_part(inner, e, level, marks);
            lemma_around_statement(
                indentation(level) + "let "@ + name + " = "@,
                text_before(inner, level, marks),
                p,
                text_after(inner, level, marks),
                ";\n"@,
            );
        },
        StatementContext::Expression(inner) => {
            law_text_of_part(inner, e, level, marks);
            lemma_around_statement(
                indentation(level),
                text_before(inner, level, marks),
                p,
                text_after(inner, level, marks),
                ";\n"@,
            );
        },
        StatementContext::Return(inner) => {
            law_text_of_part(inner, e, level, marks);
            lemma_around_statement(
                indentation(level) + "\u{1F414} "@,
                text_before(inner, level, marks),
                p,
                text_after(inner, level, marks),
                ";\n"@,
            );
        },
    }
}

/// Error containment for expressions: a placeholder in the place of an expression
/// changes the text only where it stands. The text before and after the place is the
/// same, and in the place stands the mark.
pub proof fn law_error_containment(
    context: ExpressionContext,
    e: ExpressionModel,
    level: nat,
    marks: Marks,
)
    ensures
        render_expression(fill(context, e), level, marks) == text_before(context, level, marks)
            + render_expression(e, level_inside(context, level), marks) + text_after(
            context,
            level,
            marks,
        ),
        render_expression(fill(context, ExpressionModel::Error), level, marks) == text_before(
            context,
            level,
            marks,
        ) + marks.expression + text_after(context, level, marks),
{
    law_text_of_part(context, e, level, marks);
    law_text_of_part(context, ExpressionModel::Error, level, marks);
}

/// Error containment for statements: a placeholder in the place of a statement of a
/// block changes the text only where it stands. The text before and after the place
/// is the same, and in the place stands the mark behind the indentation of the block.
pub proof fn law_error_containment_in_block(
    context: ExpressionContext,
    before: Seq<StatementModel>,
    s: StatementModel,
    after: Seq<StatementModel>,
    level: nat,
    marks: Marks,
)
    ensures
        ({
            let inside = level_inside(context, level);
            let opening = text_before(context, level, marks) + "{\n"@ + render_statements(
                before,
                inside + 1,
                marks,
            );
            let closing = render_statements(after, inside + 1, marks) + indentation(inside) + "}"@
                + text_after(context, level, marks);
            &&& render_expression(
                fill(context, ExpressionModel::Block(before.push(s) + after)),
                level,
                marks,
            ) == opening + render_statement(s, inside + 1, marks) + closing
            &&& render_expression(
                fill(context, ExpressionModel::Block(before.push(StatementModel::Error) + after)),
                level,
                marks,
            ) == opening + (indentation(inside + 1) + marks.statement) + closing
        }),
{
    let inside = level_inside(context, level);
    law_text_of_part(context, ExpressionModel::Block(before.push(s) + after), level, marks);
    law_text_of_part(
        context,
        ExpressionModel::Block(before.push(StatementModel::Error) + after),
        level,
        marks,
    );
    lemma_statement_between(before, s, after, inside + 1, marks);
    lemma_statement_between(before, StatementModel::Error, after, inside + 1, marks);
}

/// Top-level items one after the other render one after the other.
pub proof fn lemma_top_levels_concat(
    first: Seq<TopLevelModel>,
    second: Seq<TopLevelModel>,
    level: nat,
    marks: Marks,
)
    ensures
        render_top_levels(first + second, level, marks) == render_top_levels(first, level, marks)
            + render_top_levels(second, level, marks),
    decreases second.len(),
{
    if second.len() == 0 {
    } else {
        lemma_top_levels_concat(first, second.drop_last(), level, marks);
        assert((first + second).drop_last() =~= first + second.drop_last());
    }
}

/// Error containment in a program: where a function stands among the items of a
/// program and a part stands in its body, the text of the program is the text of the
/// part between a text before and a text after that do not depend on the part. A
/// placeholder in the place of the part leaves both as they are.
pub proof fn law_error_containment_in_program(
    before: Seq<TopLevelModel>,
    definition: DefinitionModel,
    context: ExpressionContext,
    e: ExpressionModel,
    tests: Seq<TestModel>,
    after: Seq<TopLevelModel>,
    level: nat,
    marks: Marks,
)
    ensures
        ({
            let opening = render_top_levels(before, level, marks) + render_definition(
                definition,
                level,
            ) + text_before(context, level, marks);
            let closing = text_after(context, level, marks) + render_test_block(
                tests,
                level,
                marks,
            ) + "\n\n"@ + render_top_levels(after, level, marks);
            let with_part = TopLevelModel::Function(
                FunctionModel { definition, body: fill(context, e), tests },
            );
            let with_error = TopLevelModel::Function(
                FunctionModel { definition, body: fill(context, ExpressionModel::Error), tests },
            );
            &&& render_top_levels(before.push(with_part) + after, level, marks) == opening
                + render_expression(e, level_inside(context, level), marks) + closing
            &&& render_top_levels(before.push(with_error) + after, level, marks) == opening
                + marks.expression + closing
        }),
{
    lemma_function_between(before, definition, context, e, tests, after, level, marks);
    lemma_function_between(
        before,
        definition,
        context,
        ExpressionModel::Error,
        tests,
        after,
        level,
        marks,
    );
}

/// The text of a program around a part of the body of one of its functions.
proof fn lemma_function_between(
    before: Seq<TopLevelModel>,
    definition: DefinitionModel,
    context: ExpressionContext,
    e: ExpressionModel,
    tests: Seq<TestModel>,
    after: Seq<TopLevelModel>,
    level: nat,
    marks: Marks,
)
    ensures
        render_top_levels(
            before.push(
                TopLevelModel::Function(
                    FunctionModel { definition, body: fill(context, e), tests },
                ),
            ) + after,
            level,
            marks,
        ) == (render_top_levels(before, level, marks) + render_definition(definition, level)
            + text_before(context, level, marks)) + render_expression(
            e,
            level_inside(context, level),
            marks,
        ) + (text_after(context, level, marks) + render_test_block(tests, level, marks) + "\n\n"@
            + render_top_levels(after, level, marks)),
{
    let function = FunctionModel { definition, body: fill(context, e), tests };
    let item = TopLevelModel::Function(function);
    lemma_top_levels_concat(before.push(item), after, level, marks);
    assert(before.push(item).drop_last() =~= before);
    law_text_of_part(context, e, level, marks);
    lemma_around_function(
        render_top_levels(before, level, marks),
        render_definition(definition, level),
        text_before(context, level, marks),
        render_expression(e, level_inside(context, level), marks),
        text_after(context, level, marks),
        render_test_block(tests, level, marks),
        "\n\n"@,
        render_top_levels(after, level, marks),
    );
}

/// A part inside the body of a function of a program: the texts around it, grouped
/// anew.
proof fn lemma_around_function(
    before: Seq<char>,
    head: Seq<char>,
    b: Seq<char>,
    p: Seq<char>,
    a: Seq<char>,
    tests: Seq<char>,
    end: Seq<char>,
    after: Seq<char>,
)
    ensures
        before + (head + (b + p + a) + tests + end) + after == (before + head + b) + p + (a + tests
            + end + after),
{
}

/// Nested conditionals: a conditional is written as `if`, the condition, a space and
/// the body, and the else-body follows the body at once, with no word, space or line
/// break between them. So a conditional in the else-body begins with its `if` right
/// behind the text of the body before it.
pub proof fn law_nested_conditionals(
    condition: ExpressionModel,
    body: ExpressionModel,
    else_body: Option<ExpressionModel>,
    level: nat,
    marks: Marks,
)
    ensures
        ({
            let conditional = IfModel {
                condition: Box::new(condition),
                body: Box::new(body),
                else_body: boxed(else_body),
            };
            let until_body = seq!['i', 'f', ' '] + render_expression(condition, level, marks)
                + seq![' '] + render_expression(body, level, marks);
            &&& render_expression(ExpressionModel::If(conditional), level, marks) == until_body
                + render_optional(else_body, level, marks)
            &&& else_body matches Some(ExpressionModel::If(inner)) ==> render_expression(
                ExpressionModel::If(conditional),
                level,
                marks,
            ) == until_body + (seq!['i', 'f', ' '] + render_expression(
                *inner.condition,
                level,
                marks,
            ) + seq![' '] + render_expression(*inner.body, level, marks) + match inner.else_body {
                Some(last) => render_expression(*last, level, marks),
                None => Seq::empty(),
            })
        }),
{
    reveal_strlit("if ");
    reveal_strlit(" ");
    assert("if "@ =~= seq!['i', 'f', ' ']);
    assert(" "@ =~= seq![' ']);
    let conditional = IfModel {
        condition: Box::new(condition),
        body: Box::new(body),
        else_body: boxed(else_body),
    };
    assert(render_expression(ExpressionModel::If(conditional), level, marks) == render_if(
        conditional,
        level,
        marks,
    ));
    match else_body {
        Some(ExpressionModel::If(inner)) => {
            assert(render_expression(ExpressionModel::If(inner), level, marks) == render_if(
                inner,
                level,
                marks,
            ));
        },
        _ => {},
    }
}

/// Explicit grouping: an operation is written between a pair of round brackets of its
/// own, whatever its operator and wherever it stands.
pub proof fn law_explicit_grouping(
    context: ExpressionContext,
    lhs: ExpressionModel,
    op: Operator,
    rhs: ExpressionModel,
    level: nat,
    marks: Marks,
)
    ensures
        ({
            let operation = ExpressionModel::Op(Box::new(lhs), op, Box::new(rhs));
            let inside = level_inside(context, level);
            let text = render_expression(operation, inside, marks);
            &&& text == seq!['('] + render_expression(lhs, inside, marks) + seq![' ']
                + operator_symbol(op) + seq![' '] + render_expression(rhs, inside, marks)
                + seq![')']
            &&& text.first() == '('
            &&& text.last() == ')'
            &&& render_expression(fill(context, operation), level, marks) == text_before(
                context,
                level,
                marks,
            ) + text + text_after(context, level, marks)
        }),
{
    let operation = ExpressionModel::Op(Box::new(lhs), op, Box::new(rhs));
    reveal_strlit("(");
    reveal_strlit(" ");
    reveal_strlit(")");
    assert("("@ =~= seq!['(']);
    assert(")"@ =~= seq![')']);
    law_text_of_part(context, operation, level, marks);
}

} // verus!
