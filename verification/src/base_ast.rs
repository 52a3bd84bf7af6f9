//! The tree as a parser hands it over: every function stands where it was declared.

use vstd::prelude::*;
use vstd::string::StringSliceAdditionalSpecFns;
use vstd::utf8::{encode_utf8, encode_utf8_valid_utf8};
use crate::formatter::{Format, Formatter};
use crate::model::{
    CallModel, DefinitionModel, ExpressionModel, FunctionModel, IfModel, LetModel, Operator,
    StatementModel, TestModel, TopLevelModel,
};
use crate::paint::{ErrorMarks, Marks};
use crate::render::{
    arguments_depth, arguments_whole, expression_depth, expression_whole, function_depth,
    function_whole, if_depth, if_whole, law_whole_expression_ignores_marks,
    law_whole_function_ignores_marks, lemma_arguments_depth, lemma_statements_depth,
    lemma_tests_depth, lemma_top_levels_depth, lemma_whole_call_ignores_marks,
    lemma_whole_if_ignores_marks, lemma_whole_let_ignores_marks,
    lemma_whole_statement_ignores_marks, lemma_whole_test_ignores_marks,
    lemma_whole_top_level_ignores_marks, lemma_whole_top_levels_ignore_marks, operator_symbol,
    render_arguments, render_call, render_comment, render_definition, render_expression,
    render_function, render_if, render_let, render_statement, render_statements, render_test,
    render_tests, render_top_level, render_top_levels, statement_depth, statement_whole,
    statements_depth, test_depth, test_whole, tests_depth, top_level_depth, top_level_whole,
    top_levels_depth, top_levels_whole,
};
use crate::text::{
    i32_to_string, join, lemma_boundary_between, lemma_encode_concat, lemma_encode_injective,
    str_eq,
};

verus! {

/// Whether a character is white space: whether it has Unicode's property `White_Space`,
/// which is what `char::is_whitespace` tells.
pub open spec fn white_space(c: char) -> bool {
    let code = c as u32;
    ||| 0x09 <= code <= 0x0d
    ||| code == 0x20
    ||| code == 0x85
    ||| code == 0xa0
    ||| code == 0x1680
    ||| 0x2000 <= code <= 0x200a
    ||| code == 0x2028
    ||| code == 0x2029
    ||| code == 0x202f
    ||| code == 0x205f
    ||| code == 0x3000
}

/// How many characters of white space a text begins with.
pub open spec fn leading_white_space(text: Seq<char>) -> nat
    decreases text.len(),
{
    if text.len() > 0 && white_space(text[0]) {
        1 + leading_white_space(text.skip(1))
    } else {
        0
    }
}

/// How many characters of white space a text ends with.
pub open spec fn trailing_white_space(text: Seq<char>) -> nat
    decreases text.len(),
{
    if text.len() > 0 && white_space(text.last()) {
        1 + trailing_white_space(text.drop_last())
    } else {
        0
    }
}

/// A text without the white space it begins with.
pub open spec fn trimmed_start(text: Seq<char>) -> Seq<char> {
    text.skip(leading_white_space(text) as int)
}

/// A text without the white space it ends with.
pub open spec fn trimmed_end(text: Seq<char>) -> Seq<char> {
    text.take(text.len() - trailing_white_space(text))
}

/// A text without the white space around it.
pub open spec fn trimmed(text: Seq<char>) -> Seq<char> {
    trimmed_end(trimmed_start(text))
}

/// `str::trim` returns the slice that is left when the white space at both ends is
/// taken away, white space being what `char::is_whitespace` says it is.
pub assume_specification[ str::trim ](text: &str) -> (bare: &str)
    ensures
        bare@ == trimmed(text@),
;

/// What `Comment::new` keeps of a lexeme: what follows the two characters of the
/// marker, without the white space around it.
pub open spec fn comment_text(lexeme: Seq<char>) -> Seq<char> {
    trimmed(lexeme.skip(2))
}

/// The white space a text begins with ends before the text does or with it, and what
/// follows it is no white space.
pub proof fn lemma_leading_white_space(text: Seq<char>)
    ensures
        leading_white_space(text) <= text.len(),
        leading_white_space(text) < text.len() ==> !white_space(
            text[leading_white_space(text) as int],
        ),
    decreases text.len(),
{
    if text.len() > 0 && white_space(text[0]) {
        lemma_leading_white_space(text.skip(1));
    }
}

/// The white space a text ends with begins after the text does or with it, and what
/// stands before it is no white space. It leaves a text that begins with another
/// character its beginning.
pub proof fn lemma_trailing_white_space(text: Seq<char>)
    ensures
        trailing_white_space(text) <= text.len(),
        trailing_white_space(text) < text.len() ==> !white_space(
            text[text.len() - 1 - trailing_white_space(text)],
        ),
        text.len() > 0 && !white_space(text[0]) ==> trailing_white_space(text) < text.len(),
    decreases text.len(),
{
    if text.len() > 0 && white_space(text.last()) {
        lemma_trailing_white_space(text.drop_last());
    }
}

/// A trimmed text neither begins nor ends with white space, and trimming it again
/// changes nothing.
pub proof fn law_trimmed_is_bare(text: Seq<char>)
    ensures
        trimmed(text).len() > 0 ==> !white_space(trimmed(text).first()) && !white_space(
            trimmed(text).last(),
        ),
        trimmed(trimmed(text)) == trimmed(text),
{
    let rest = trimmed_start(text);
    lemma_leading_white_space(text);
    lemma_trailing_white_space(rest);
    let bare = trimmed(text);
    if bare.len() > 0 {
        assert(bare.first() == rest[0]);
        assert(bare.last() == rest[rest.len() - 1 - trailing_white_space(rest)]);
    }
    assert(trimmed_start(bare) =~= bare);
    assert(trimmed_end(bare) =~= bare);
}

/// A program: its top-level items in source order.
#[derive(Debug)]
pub struct Program<'input> {
    pub things: Vec<TopLevel<'input>>,
}

/// A top-level item: a function or a comment on its own.
#[derive(Debug)]
pub enum TopLevel<'input> {
    Function(Function<'input>),
    Comment(Comment<'input>),
}

/// A comment: its text without the marker and without the white space around it.
#[derive(Debug)]
pub struct Comment<'input> {
    pub text: &'input str,
}

// function -------------------------------------------------------------------

/// A function: its definition, its body, and examples of what it returns.
#[derive(Debug)]
pub struct Function<'input> {
    pub definition: FunctionDefinition<'input>,
    pub body: Box<Expression<'input>>,
    pub tests: Vec<Test<'input>>,
}

/// The head of a function: its name and its parameters in order.
#[derive(Debug)]
pub struct FunctionDefinition<'input> {
    pub name: &'input str,
    pub params: Vec<Parameter<'input>>,
}

/// A parameter of a function.
#[derive(Debug)]
pub struct Parameter<'input> {
    pub name: &'input str,
}

/// An example of a function's behaviour: an input and the output expected for it.
#[derive(Debug)]
pub struct Test<'input> {
    pub input: Box<Expression<'input>>,
    pub output: Box<Expression<'input>>,
}

// statements -----------------------------------------------------------------

/// A statement. `Error` stands where the parser found none.
#[derive(Debug)]
pub enum Statement<'input> {
    Let(Let<'input>),
    Expression(Box<Expression<'input>>),
    Return(Box<Expression<'input>>),
    Comment(Comment<'input>),
    Error,
}

/// A binding of a name to a value.
#[derive(Debug)]
pub struct Let<'input> {
    pub name: &'input str,
    pub value: Box<Expression<'input>>,
}

/// A call: the callee's name and the arguments in order.
#[derive(Debug)]
pub struct FunctionCall<'input> {
    pub name: &'input str,
    pub args: Vec<Box<Expression<'input>>>,
}

// expressions ----------------------------------------------------------------

/// An expression. `Expression` keeps an explicit grouping; `Error` stands where the
/// parser found no expression.
#[derive(Debug)]
pub enum Expression<'input> {
    Expression(Box<Expression<'input>>),
    Block(Vec<Statement<'input>>),
    FunctionCall(FunctionCall<'input>),
    Variable(Variable<'input>),
    Number(i32),
    String(ASTString<'input>),
    If(If<'input>),
    Op(Box<Expression<'input>>, Opcode, Box<Expression<'input>>),
    ExpressionComment((Box<Expression<'input>>, Comment<'input>)),
    Error,
}

/// A reference to a name.
#[derive(Debug)]
pub struct Variable<'input> {
    pub name: &'input str,
}

/// A string literal, as it was written.
#[derive(Debug)]
pub struct ASTString<'input> {
    pub value: &'input str,
}

/// A conditional. A chain of conditionals nests in `else_body`.
#[derive(Debug)]
pub struct If<'input> {
    pub condition: Box<Expression<'input>>,
    pub body: Box<Expression<'input>>,
    pub else_body: Option<Box<Expression<'input>>>,
}

// math -----------------------------------------------------------------------

/// An arithmetic expression over numerals.
#[derive(Debug)]
pub enum ExprSymbol<'input> {
    NumSymbol(&'input str),
    Op(Box<ExprSymbol<'input>>, Opcode, Box<ExprSymbol<'input>>),
    Error,
}

/// A binary arithmetic operator.
#[derive(Copy, Clone, Debug)]
pub enum Opcode {
    Mul,
    Div,
    Add,
    Sub,
}

// models ---------------------------------------------------------------------

/// The model of an expression.
pub open spec fn expression_model(e: Expression) -> ExpressionModel
    decreases e,
{
    match e {
        Expression::Expression(inner) => ExpressionModel::Expression(
            Box::new(expression_model(*inner)),
        ),
        Expression::Block(statements) => ExpressionModel::Block(statements_model(statements@)),
        Expression::FunctionCall(call) => ExpressionModel::FunctionCall(call_model(call)),
        Expression::Variable(variable) => ExpressionModel::Variable(variable.name@),
        Expression::Number(value) => ExpressionModel::Number(value),
        Expression::String(string) => ExpressionModel::String(string.value@),
        Expression::If(conditional) => ExpressionModel::If(if_model(conditional)),
        Expression::Op(lhs, op, rhs) => ExpressionModel::Op(
            Box::new(expression_model(*lhs)),
            op@,
            Box::new(expression_model(*rhs)),
        ),
        Expression::ExpressionComment((inner, comment)) => ExpressionModel::ExpressionComment(
            Box::new(expression_model(*inner)),
            comment.text@,
        ),
        Expression::Error => ExpressionModel::Error,
    }
}

/// The models of statements, in order.
pub open spec fn statements_model(statements: Seq<Statement>) -> Seq<StatementModel>
    decreases statements,
{
    Seq::new(
        statements.len(),
        |i: int|
            if 0 <= i < statements.len() {
                statement_model(statements[i])
            } else {
                StatementModel::Error
            },
    )
}

/// The model of a statement.
pub open spec fn statement_model(s: Statement) -> StatementModel
    decreases s,
{
    match s {
        Statement::Let(binding) => StatementModel::Let(let_model(binding)),
        Statement::Expression(e) => StatementModel::Expression(expression_model(*e)),
        Statement::Return(e) => StatementModel::Return(expression_model(*e)),
        Statement::Comment(comment) => StatementModel::Comment(comment.text@),
        Statement::Error => StatementModel::Error,
    }
}

/// The model of a binding.
pub open spec fn let_model(binding: Let) -> LetModel
    decreases binding,
{
    LetModel { name: binding.name@, value: expression_model(*binding.value) }
}

/// The model of a call.
pub open spec fn call_model(call: FunctionCall) -> CallModel
    decreases call,
{
    CallModel { name: call.name@, args: arguments_model(call.args@) }
}

/// The models of arguments, in order.
pub open spec fn arguments_model(args: Seq<Box<Expression>>) -> Seq<ExpressionModel>
    decreases args,
{
    Seq::new(
        args.len(),
        |i: int|
            if 0 <= i < args.len() {
                expression_model(*args[i])
            } else {
                ExpressionModel::Error
            },
    )
}

/// The model of a conditional.
pub open spec fn if_model(conditional: If) -> IfModel
    decreases conditional,
{
    IfModel {
        condition: Box::new(expression_model(*conditional.condition)),
        body: Box::new(expression_model(*conditional.body)),
        else_body: match conditional.else_body {
            Some(else_body) => Some(Box::new(expression_model(*else_body))),
            None => None,
        },
    }
}

/// The models of examples, in order.
pub open spec fn tests_model(tests: Seq<Test>) -> Seq<TestModel> {
    Seq::new(tests.len(), |i: int| tests[i]@)
}

/// The names of parameters, in order.
pub open spec fn parameters_model(params: Seq<Parameter>) -> Seq<Seq<char>> {
    Seq::new(params.len(), |i: int| params[i]@)
}

/// The models of top-level items, in order.
pub open spec fn top_levels_model(things: Seq<TopLevel>) -> Seq<TopLevelModel> {
    Seq::new(things.len(), |i: int| things[i]@)
}

impl View for Opcode {
    type V = Operator;

    open spec fn view(&self) -> Operator {
        match self {
            Opcode::Mul => Operator::Mul,
            Opcode::Div => Operator::Div,
            Opcode::Add => Operator::Add,
            Opcode::Sub => Operator::Sub,
        }
    }
}

impl<'input> View for Comment<'input> {
    type V = Seq<char>;

    open spec fn view(&self) -> Seq<char> {
        self.text@
    }
}

impl<'input> View for Parameter<'input> {
    type V = Seq<char>;

    open spec fn view(&self) -> Seq<char> {
        self.name@
    }
}

impl<'input> View for Variable<'input> {
    type V = Seq<char>;

    open spec fn view(&self) -> Seq<char> {
        self.name@
    }
}

impl<'input> View for ASTString<'input> {
    type V = Seq<char>;

    open spec fn view(&self) -> Seq<char> {
        self.value@
    }
}

impl<'input> View for Expression<'input> {
    type V = ExpressionModel;

    open spec fn view(&self) -> ExpressionModel {
        expression_model(*self)
    }
}

impl<'input> View for Statement<'input> {
    type V = StatementModel;

    open spec fn view(&self) -> StatementModel {
        statement_model(*self)
    }
}

impl<'input> View for Let<'input> {
    type V = LetModel;

    open spec fn view(&self) -> LetModel {
        let_model(*self)
    }
}

impl<'input> View for FunctionCall<'input> {
    type V = CallModel;

    open spec fn view(&self) -> CallModel {
        call_model(*self)
    }
}

impl<'input> View for If<'input> {
    type V = IfModel;

    open spec fn view(&self) -> IfModel {
        if_model(*self)
    }
}

impl<'input> View for Test<'input> {
    type V = TestModel;

    open spec fn view(&self) -> TestModel {
        TestModel { input: self.input@, output: self.output@ }
    }
}

impl<'input> View for FunctionDefinition<'input> {
    type V = DefinitionModel;

    open spec fn view(&self) -> DefinitionModel {
        DefinitionModel { name: self.name@, params: parameters_model(self.params@) }
    }
}

impl<'input> View for Function<'input> {
    type V = FunctionModel;

    open spec fn view(&self) -> FunctionModel {
        FunctionModel {
            definition: self.definition@,
            body: self.body@,
            tests: tests_model(self.tests@),
        }
    }
}

impl<'input> View for TopLevel<'input> {
    type V = TopLevelModel;

    open spec fn view(&self) -> TopLevelModel {
        match self {
            TopLevel::Function(function) => TopLevelModel::Function(function@),
            TopLevel::Comment(comment) => TopLevelModel::Comment(comment@),
        }
    }
}

impl<'input> View for Program<'input> {
    type V = Seq<TopLevelModel>;

    open spec fn view(&self) -> Seq<TopLevelModel> {
        top_levels_model(self.things@)
    }
}

impl<'input> Comment<'input> {
    /// The comment of a lexeme that begins with the marker `//`: the marker and the
    /// white space around what follows it are left out.
    pub fn new(text: &'input str) -> (comment: Self)
        requires
            text@.len() >= 2,
            text@[0] == '/',
            text@[1] == '/',
        ensures
            comment@ == comment_text(text@),
            comment@.len() > 0 ==> !white_space(comment@.first()) && !white_space(
                comment@.last(),
            ),
    {
        let ghost marker = text@.take(2);
        let ghost rest = text@.skip(2);
        proof {
            assert(text@ =~= marker + rest);
            lemma_encode_concat(marker, rest);
            encode_utf8_valid_utf8(marker);
            encode_utf8_valid_utf8(rest);
            lemma_boundary_between(encode_utf8(marker), encode_utf8(rest));
            lemma_marker_width(marker);
        }
        // remove the // from the start of the comment
        let (_, tail) = text.split_at(2);
        proof {
            assert(tail.spec_bytes() =~= encode_utf8(rest));
            lemma_encode_injective(tail@, rest);
            law_trimmed_is_bare(rest);
        }
        // remove any whitespace around the comment
        let text = tail.trim();
        Self { text }
    }
}

impl<'input> Format for Program<'input> {
    open spec fn rendered(&self, level: nat, marks: Marks) -> Seq<char> {
        render_top_levels(self@, level, marks)
    }

    open spec fn depth(&self) -> nat {
        top_levels_depth(self@)
    }

    open spec fn well_formed(&self) -> bool {
        true
    }

    open spec fn whole(&self) -> bool {
        top_levels_whole(self@)
    }

    proof fn whole_ignores_marks(&self, level: nat, first: Marks, second: Marks) {
        lemma_whole_top_levels_ignore_marks(self@, level, first, second);
    }

    fn format_with(&self, fmt: &mut Formatter, marks: &ErrorMarks) {
        let ghost things = top_levels_model(self.things@);
        let mut i: usize = 0;
        while i < self.things.len()
            invariant
                i <= self.things.len(),
                things == top_levels_model(self.things@),
                fmt.indent_level == old(fmt).indent_level,
                fmt.indent_level + top_levels_depth(things) <= usize::MAX,
                fmt.string@ == old(fmt).string@ + render_top_levels(
                    things.take(i as int),
                    fmt.indent_level as nat,
                    marks@,
                ),
            decreases self.things.len() - i,
        {
            proof {
                assert(things.take(i + 1).drop_last() =~= things.take(i as int));
                lemma_top_levels_depth(things, i as int);
            }
            self.things[i].format_with(fmt, marks);
            i += 1;
        }
        proof {
            assert(things.take(i as int) =~= things);
        }
    }

    fn format(&self, fmt: &mut Formatter) {
        let marks = ErrorMarks::painted();
        self.format_with(fmt, &marks);
        proof {
            if self.whole() {
                self.whole_ignores_marks(old(fmt).indent_level as nat, marks@, Marks::plain());
            }
        }
    }
}

impl<'input> Format for TopLevel<'input> {
    open spec fn rendered(&self, level: nat, marks: Marks) -> Seq<char> {
        render_top_level(self@, level, marks)
    }

    open spec fn depth(&self) -> nat {
        top_level_depth(self@)
    }

    open spec fn well_formed(&self) -> bool {
        true
    }

    open spec fn whole(&self) -> bool {
        top_level_whole(self@)
    }

    proof fn whole_ignores_marks(&self, level: nat, first: Marks, second: Marks) {
        lemma_whole_top_level_ignores_marks(self@, level, first, second);
    }

    fn format_with(&self, fmt: &mut Formatter, marks: &ErrorMarks) {
        match self {
            TopLevel::Function(func) => func.format_with(fmt, marks),
            TopLevel::Comment(comment) => comment.format_with(fmt, marks),
        }
    }

    fn format(&self, fmt: &mut Formatter) {
        let marks = ErrorMarks::painted();
        self.format_with(fmt, &marks);
        proof {
            if self.whole() {
                self.whole_ignores_marks(old(fmt).indent_level as nat, marks@, Marks::plain());
            }
        }
    }
}

impl<'input> Format for Comment<'input> {
    open spec fn rendered(&self, level: nat, marks: Marks) -> Seq<char> {
        render_comment(self@, level)
    }

    open spec fn depth(&self) -> nat {
        0
    }

    open spec fn well_formed(&self) -> bool {
        true
    }

    open spec fn whole(&self) -> bool {
        true
    }

    proof fn whole_ignores_marks(&self, level: nat, first: Marks, second: Marks) {
    }

    fn format_with(&self, fmt: &mut Formatter, marks: &ErrorMarks) {
        fmt.push_str_indented("// ");
        fmt.push_str(self.text);
        fmt.push_str("\n");
    }

    fn format(&self, fmt: &mut Formatter) {
        let marks = ErrorMarks::painted();
        self.format_with(fmt, &marks);
        proof {
            if self.whole() {
                self.whole_ignores_marks(old(fmt).indent_level as nat, marks@, Marks::plain());
            }
        }
    }
}

impl<'input> Function<'input> {
    /// A function that has only a name: no parameters, no examples, and a placeholder
    /// for its body.
    pub fn comment(content: &'input str) -> (function: Self)
        ensures
            function@ == (FunctionModel {
                definition: DefinitionModel { name: content@, params: Seq::empty() },
                body: ExpressionModel::Error,
                tests: Seq::empty(),
            }),
    {
        let function = Self {
            definition: FunctionDefinition { name: content, params: Vec::new() },
            body: Box::new(Expression::Error),
            tests: Vec::new(),
        };
        assert(function@.definition.params =~= Seq::empty());
        assert(function@.tests =~= Seq::empty());
        function
    }
}

impl<'input> Format for Function<'input> {
    open spec fn rendered(&self, level: nat, marks: Marks) -> Seq<char> {
        render_function(self@, level, marks)
    }

    open spec fn depth(&self) -> nat {
        function_depth(self@)
    }

    open spec fn well_formed(&self) -> bool {
        true
    }

    open spec fn whole(&self) -> bool {
        function_whole(self@)
    }

    proof fn whole_ignores_marks(&self, level: nat, first: Marks, second: Marks) {
        law_whole_function_ignores_marks(self@, level, first, second);
    }

    fn format_with(&self, fmt: &mut Formatter, marks: &ErrorMarks) {
        self.definition.format_with(fmt, marks);
        self.body.format_with(fmt, marks);
        if !self.tests.is_empty() {
            fmt.push_str_indented("[\n");
            fmt.indent();
            let ghost head = fmt.string@;
            let ghost tests = tests_model(self.tests@);
            let mut i: usize = 0;
            while i < self.tests.len()
                invariant
                    i <= self.tests.len(),
                    tests == tests_model(self.tests@),
                    fmt.indent_level == old(fmt).indent_level + 1,
                    fmt.indent_level + tests_depth(tests) <= usize::MAX,
                    fmt.string@ == head + render_tests(
                        tests.take(i as int),
                        fmt.indent_level as nat,
                        marks@,
                    ),
                decreases self.tests.len() - i,
            {
                proof {
                    assert(tests.take(i + 1).drop_last() =~= tests.take(i as int));
                    lemma_tests_depth(tests, i as int);
                }
                proof {
                    reveal_strlit("");
                }
                fmt.push_str_indented("");
                self.tests[i].format_with(fmt, marks);
                fmt.push_str(",\n");
                i += 1;
            }
            proof {
                assert(tests.take(i as int) =~= tests);
            }
            fmt.unindent();
            fmt.push_str_indented("]");
        }
        fmt.push_str("\n\n");
    }

    fn format(&self, fmt: &mut Formatter) {
        let marks = ErrorMarks::painted();
        self.format_with(fmt, &marks);
        proof {
            if self.whole() {
                self.whole_ignores_marks(old(fmt).indent_level as nat, marks@, Marks::plain());
            }
        }
    }
}

impl<'input> Format for FunctionDefinition<'input> {
    open spec fn rendered(&self, level: nat, marks: Marks) -> Seq<char> {
        render_definition(self@, level)
    }

    open spec fn depth(&self) -> nat {
        0
    }

    open spec fn well_formed(&self) -> bool {
        true
    }

    open spec fn whole(&self) -> bool {
        true
    }

    proof fn whole_ignores_marks(&self, level: nat, first: Marks, second: Marks) {
    }

    fn format_with(&self, fmt: &mut Formatter, marks: &ErrorMarks) {
        if str_eq(self.name, "hatch") {
            fmt.push_str_indented("\u{1F95A} \u{1F423}(");
        } else {
            fmt.push_str_indented("\u{1F95A} ");
            fmt.push_str(self.name);
            fmt.push_str("(");
        }
        let ghost params = parameters_model(self.params@);
        let mut joined = String::new();
        let mut i: usize = 0;
        while i < self.params.len()
            invariant
                i <= self.params.len(),
                params == parameters_model(self.params@),
                joined@ == join(params.take(i as int), ", "@),
            decreases self.params.len() - i,
        {
            proof {
                assert(params.take(i + 1).drop_last() =~= params.take(i as int));
            }
            if i > 0 {
                joined.append(", ");
            }
            let name = self.params[i].to_string();
            joined.append(name.as_str());
            i += 1;
        }
        proof {
            assert(params.take(i as int) =~= params);
        }
        fmt.push_string(joined);
        fmt.push_str(") ");
    }

    fn format(&self, fmt: &mut Formatter) {
        let marks = ErrorMarks::painted();
        self.format_with(fmt, &marks);
        proof {
            if self.whole() {
                self.whole_ignores_marks(old(fmt).indent_level as nat, marks@, Marks::plain());
            }
        }
    }
}

impl<'input> Parameter<'input> {
    /// The parameter's name.
    pub fn to_string(&self) -> (name: String)
        ensures
            name@ == self@,
    {
        String::from_str(self.name)
    }
}

impl<'input> Format for Test<'input> {
    open spec fn rendered(&self, level: nat, marks: Marks) -> Seq<char> {
        render_test(self@, level, marks)
    }

    open spec fn depth(&self) -> nat {
        test_depth(self@)
    }

    open spec fn well_formed(&self) -> bool {
        true
    }

    open spec fn whole(&self) -> bool {
        test_whole(self@)
    }

    proof fn whole_ignores_marks(&self, level: nat, first: Marks, second: Marks) {
        lemma_whole_test_ignores_marks(self@, level, first, second);
    }

    fn format_with(&self, fmt: &mut Formatter, marks: &ErrorMarks) {
        self.input.format_with(fmt, marks);
        fmt.push_str(" = ");
        self.output.format_with(fmt, marks);
    }

    fn format(&self, fmt: &mut Formatter) {
        let marks = ErrorMarks::painted();
        self.format_with(fmt, &marks);
        proof {
            if self.whole() {
                self.whole_ignores_marks(old(fmt).indent_level as nat, marks@, Marks::plain());
            }
        }
    }
}

impl<'input> Format for Statement<'input> {
    open spec fn rendered(&self, level: nat, marks: Marks) -> Seq<char> {
        render_statement(self@, level, marks)
    }

    open spec fn depth(&self) -> nat {
        statement_depth(self@)
    }

    open spec fn well_formed(&self) -> bool {
        true
    }

    open spec fn whole(&self) -> bool {
        statement_whole(self@)
    }

    proof fn whole_ignores_marks(&self, level: nat, first: Marks, second: Marks) {
        lemma_whole_statement_ignores_marks(self@, level, first, second);
    }

    fn format_with(&self, fmt: &mut Formatter, marks: &ErrorMarks)
        decreases self,
    {
        match self {
            Statement::Let(let_) => let_.format_with(fmt, marks),
            Statement::Expression(expr) => {
                proof {
                    reveal_strlit("");
                }
                fmt.push_str_indented("");
                expr.format_with(fmt, marks);
                fmt.push_str(";\n");
            },
            Statement::Return(expr) => {
                fmt.push_str_indented("\u{1F414} ");
                expr.format_with(fmt, marks);
                fmt.push_str(";\n");
            },
            Statement::Comment(comment) => comment.format_with(fmt, marks),
            Statement::Error => fmt.push_str_indented(marks.statement.as_str()),
        }
    }

    fn format(&self, fmt: &mut Formatter) {
        let marks = ErrorMarks::painted();
        self.format_with(fmt, &marks);
        proof {
            if self.whole() {
                self.whole_ignores_marks(old(fmt).indent_level as nat, marks@, Marks::plain());
            }
        }
    }
}

impl<'input> Format for Let<'input> {
    open spec fn rendered(&self, level: nat, marks: Marks) -> Seq<char> {
        render_let(self@, level, marks)
    }

    open spec fn depth(&self) -> nat {
        expression_depth(self@.value)
    }

    open spec fn well_formed(&self) -> bool {
        true
    }

    open spec fn whole(&self) -> bool {
        expression_whole(self@.value)
    }

    proof fn whole_ignores_marks(&self, level: nat, first: Marks, second: Marks) {
        lemma_whole_let_ignores_marks(self@, level, first, second);
    }

    fn format_with(&self, fmt: &mut Formatter, marks: &ErrorMarks)
        decreases self,
    {
        fmt.push_str_indented("let ");
        fmt.push_str(self.name);
        fmt.push_str(" = ");
        self.value.format_with(fmt, marks);
        fmt.push_str(";\n");
    }

    fn format(&self, fmt: &mut Formatter) {
        let marks = ErrorMarks::painted();
        self.format_with(fmt, &marks);
        proof {
            if self.whole() {
                self.whole_ignores_marks(old(fmt).indent_level as nat, marks@, Marks::plain());
            }
        }
    }
}

impl<'input> Format for FunctionCall<'input> {
    open spec fn rendered(&self, level: nat, marks: Marks) -> Seq<char> {
        render_call(self@, level, marks)
    }

    open spec fn depth(&self) -> nat {
        arguments_depth(self@.args)
    }

    open spec fn well_formed(&self) -> bool {
        true
    }

    open spec fn whole(&self) -> bool {
        arguments_whole(self@.args)
    }

    proof fn whole_ignores_marks(&self, level: nat, first: Marks, second: Marks) {
        lemma_whole_call_ignores_marks(self@, level, first, second);
    }

    fn format_with(&self, fmt: &mut Formatter, marks: &ErrorMarks)
        decreases self,
    {
        fmt.push_str(self.name);
        fmt.push_str("(");
        let ghost head = fmt.string@;
        let ghost args = arguments_model(self.args@);
        let mut i: usize = 0;
        while i < self.args.len()
            invariant
                i <= self.args.len(),
                args == arguments_model(self.args@),
                fmt.indent_level == old(fmt).indent_level,
                fmt.indent_level + arguments_depth(args) <= usize::MAX,
                fmt.string@ == head + render_arguments(
                    args.take(i as int),
                    fmt.indent_level as nat,
                    marks@,
                ),
            decreases self.args.len() - i,
        {
            proof {
                assert(args.take(i + 1).drop_last() =~= args.take(i as int));
                lemma_arguments_depth(args, i as int);
            }
            if i > 0 {
                fmt.push_str(", ");
            }
            self.args[i].format_with(fmt, marks);
            i += 1;
        }
        proof {
            assert(args.take(i as int) =~= args);
        }
        fmt.push_str(")");
    }

    fn format(&self, fmt: &mut Formatter) {
        let marks = ErrorMarks::painted();
        self.format_with(fmt, &marks);
        proof {
            if self.whole() {
                self.whole_ignores_marks(old(fmt).indent_level as nat, marks@, Marks::plain());
            }
        }
    }
}

impl<'input> Format for Expression<'input> {
    open spec fn rendered(&self, level: nat, marks: Marks) -> Seq<char> {
        render_expression(self@, level, marks)
    }

    open spec fn depth(&self) -> nat {
        expression_depth(self@)
    }

    open spec fn well_formed(&self) -> bool {
        true
    }

    open spec fn whole(&self) -> bool {
        expression_whole(self@)
    }

    proof fn whole_ignores_marks(&self, level: nat, first: Marks, second: Marks) {
        law_whole_expression_ignores_marks(self@, level, first, second);
    }

    fn format_with(&self, fmt: &mut Formatter, marks: &ErrorMarks)
        decreases self,
    {
        match self {
            Expression::Expression(expr) => expr.format_with(fmt, marks),
            Expression::FunctionCall(func) => func.format_with(fmt, marks),
            Expression::Block(block) => {
                fmt.push_str("{\n");
                fmt.indent();
                let ghost head = fmt.string@;
                let ghost statements = statements_model(block@);
                let mut i: usize = 0;
                while i < block.len()
                    invariant
                        i <= block.len(),
                        decreases_to!(self => *block),
                        statements == statements_model(block@),
                        fmt.indent_level == old(fmt).indent_level + 1,
                        fmt.indent_level + statements_depth(statements) <= usize::MAX,
                        fmt.string@ == head + render_statements(
                            statements.take(i as int),
                            fmt.indent_level as nat,
                            marks@,
                        ),
                    decreases block.len() - i,
                {
                    proof {
                        assert(statements.take(i + 1).drop_last() =~= statements.take(i as int));
                        lemma_statements_depth(statements, i as int);
                    }
                    block[i].format_with(fmt, marks);
                    i += 1;
                }
                proof {
                    assert(statements.take(i as int) =~= statements);
                }
                fmt.unindent();
                fmt.push_str_indented("}");
            },
            Expression::Variable(var) => fmt.push_string(var.to_string()),
            Expression::Number(num) => fmt.push_string(i32_to_string(*num)),
            Expression::String(str) => fmt.push_string(str.to_string()),
            Expression::Op(lhs, op, rhs) => {
                fmt.push_str("(");
                lhs.format_with(fmt, marks);
                fmt.push_str(" ");
                fmt.push_string(op.to_string());
                fmt.push_str(" ");
                rhs.format_with(fmt, marks);
                fmt.push_str(")");
            },
            Expression::If(if_) => if_.format_with(fmt, marks),
            Expression::ExpressionComment((expr, comment)) => {
                expr.format_with(fmt, marks);
                comment.format_with(fmt, marks);
            },
            Expression::Error => fmt.push_str(marks.expression.as_str()),
        }
    }

    fn format(&self, fmt: &mut Formatter) {
        let marks = ErrorMarks::painted();
        self.format_with(fmt, &marks);
        proof {
            if self.whole() {
                self.whole_ignores_marks(old(fmt).indent_level as nat, marks@, Marks::plain());
            }
        }
    }
}

impl<'input> Variable<'input> {
    /// The variable's name.
    pub fn to_string(&self) -> (name: String)
        ensures
            name@ == self@,
    {
        String::from_str(self.name)
    }
}

impl<'input> ASTString<'input> {
    /// The literal's text.
    pub fn to_string(&self) -> (value: String)
        ensures
            value@ == self@,
    {
        String::from_str(self.value)
    }
}

impl<'input> Format for If<'input> {
    open spec fn rendered(&self, level: nat, marks: Marks) -> Seq<char> {
        render_if(self@, level, marks)
    }

    open spec fn depth(&self) -> nat {
        if_depth(self@)
    }

    open spec fn well_formed(&self) -> bool {
        true
    }

    open spec fn whole(&self) -> bool {
        if_whole(self@)
    }

    proof fn whole_ignores_marks(&self, level: nat, first: Marks, second: Marks) {
        lemma_whole_if_ignores_marks(self@, level, first, second);
    }

    fn format_with(&self, fmt: &mut Formatter, marks: &ErrorMarks)
        decreases self,
    {
        fmt.push_str("if ");
        self.condition.format_with(fmt, marks);
        fmt.push_str(" ");
        self.body.format_with(fmt, marks);
        if let Some(else_) = &self.else_body {
            else_.format_with(fmt, marks);
        }
    }

    fn format(&self, fmt: &mut Formatter) {
        let marks = ErrorMarks::painted();
        self.format_with(fmt, &marks);
        proof {
            if self.whole() {
                self.whole_ignores_marks(old(fmt).indent_level as nat, marks@, Marks::plain());
            }
        }
    }
}

impl Opcode {
    /// The operator's symbol.
    pub fn to_string(&self) -> (symbol: String)
        ensures
            symbol@ == operator_symbol(self@),
    {
        match self {
            Opcode::Mul => String::from_str("*"),
            Opcode::Div => String::from_str("/"),
            Opcode::Add => String::from_str("+"),
            Opcode::Sub => String::from_str("-"),
        }
    }
}

/// The text of a symbol: a number as it was written, an operation between round
/// brackets, and `mark` for a placeholder.
pub open spec fn symbol_text(symbol: ExprSymbol, mark: Seq<char>) -> Seq<char>
    decreases symbol,
{
    match symbol {
        ExprSymbol::NumSymbol(n) => n@,
        ExprSymbol::Op(l, op, r) => "("@ + symbol_text(*l, mark) + " "@ + operator_symbol(op@)
            + " "@ + symbol_text(*r, mark) + ")"@,
        ExprSymbol::Error => mark,
    }
}

impl<'input> ExprSymbol<'input> {
    /// Appends the symbol's text, placeholders drawn as `marks` says of expressions.
    pub fn write_with(&self, out: &mut String, marks: &ErrorMarks)
        ensures
            final(out)@ == old(out)@ + symbol_text(*self, marks@.expression),
        decreases self,
    {
        match self {
            ExprSymbol::NumSymbol(n) => out.append(n),
            ExprSymbol::Op(l, op, r) => {
                out.append("(");
                l.write_with(out, marks);
                out.append(" ");
                out.append(op.to_string().as_str());
                out.append(" ");
                r.write_with(out, marks);
                out.append(")");
            },
            ExprSymbol::Error => out.append(marks.expression.as_str()),
        }
    }

    /// The symbol's text, placeholders drawn as `marks` says of expressions.
    pub fn to_string_with(&self, marks: &ErrorMarks) -> (text: String)
        ensures
            text@ == symbol_text(*self, marks@.expression),
    {
        let mut text = String::new();
        self.write_with(&mut text, marks);
        text
    }

    /// The symbol's text, placeholders painted red as far as the terminal's settings
    /// allow.
    pub fn to_string(&self) -> (text: String)
        ensures
            exists|marks: Marks| marks.painted() && text@ == symbol_text(*self, marks.expression),
    {
        let marks = ErrorMarks::painted();
        self.to_string_with(&marks)
    }
}

/// The marker `//` is two bytes wide.
proof fn lemma_marker_width(marker: Seq<char>)
    requires
        marker.len() == 2,
        marker[0] == '/',
        marker[1] == '/',
    ensures
        encode_utf8(marker).len() == 2,
{
    reveal_with_fuel(encode_utf8, 3);
}

} // verus!
