//! The tree after resolution: every function stands in a table, and the items of the
//! program name it by its place there.

use vstd::prelude::*;
use vstd::std_specs::convert::FromSpecImpl;
use id_collections::IdVec;
use crate::formatter::{Format, Formatter};
use crate::model::{
    CallModel, DefinitionModel, ExpressionModel, FunctionModel, IfModel, ItemModel, LetModel,
    Operator, ProgramModel, StatementModel, TestModel,
};
use crate::paint::{ErrorMarks, Marks};
use crate::base_ast;
use crate::render::{
    arguments_depth, arguments_whole, expression_depth, expression_whole, function_depth,
    function_whole, if_depth, if_whole, items_depth, items_resolve,
    law_whole_expression_ignores_marks, law_whole_function_ignores_marks,
    law_whole_program_ignores_marks, lemma_arguments_depth, lemma_items_depth,
    lemma_statements_depth, lemma_tests_depth, lemma_whole_call_ignores_marks,
    lemma_whole_if_ignores_marks, lemma_whole_let_ignores_marks,
    lemma_whole_statement_ignores_marks, lemma_whole_test_ignores_marks, operator_symbol,
    program_depth, program_resolves, program_whole, render_arguments, render_call, render_comment,
    render_definition, render_expression, render_function, render_if, render_items, render_let,
    render_program, render_statement, render_statements, render_test, render_tests, saturated,
    statement_depth, statement_whole, statements_depth, test_depth, test_whole, tests_depth,
};
use crate::resolver::resolve;
use crate::text::{i32_to_string, join, str_eq};

verus! {

/// The place of a function in the table of its program.
#[derive(Clone, Copy, Debug, PartialEq, Eq, PartialOrd, Ord, Hash)]
pub struct FunctionId(pub usize);

impl id_collections::Id for FunctionId {
    type Index = usize;

    fn from_index(index: usize) -> (id: Self)
        ensures
            id.0 == index,
    {
        FunctionId(index)
    }

    fn to_index(self) -> (index: usize)
        ensures
            index == self.0,
    {
        self.0
    }
}

/// The functions of a program, each under the identifier it was given: an `IdVec` of
/// `id_collections`, of which the verifier sees only what `table_functions` and the
/// methods below say.
#[verifier::external_body]
#[derive(Debug)]
pub struct FunctionTable<'input> {
    inner: IdVec<FunctionId, Function<'input>>,
}

/// The functions that a table holds, in the order of their identifiers.
pub uninterp spec fn table_functions(table: FunctionTable) -> Seq<Function>;

impl<'input> FunctionTable<'input> {
    /// `IdVec::new`: a table that holds nothing.
    #[verifier::external_body]
    pub(crate) fn new() -> (table: Self)
        ensures
            table_functions(table) == Seq::<Function>::empty(),
    {
        FunctionTable { inner: IdVec::new() }
    }

    /// `IdVec::len`: how many functions the table holds.
    #[verifier::external_body]
    pub(crate) fn len(&self) -> (count: usize)
        ensures
            count == table_functions(*self).len(),
    {
        self.inner.len()
    }

    /// `IdVec::push`: the function goes to the end of the table, and the identifier
    /// returned is the place it took, which is the number of functions that were there
    /// before. `IdVec` panics where that number has no successor in `usize` (and where
    /// no memory is left for the function).
    #[verifier::external_body]
    pub(crate) fn push(&mut self, function: Function<'input>) -> (id: FunctionId)
        requires
            table_functions(*old(self)).len() < usize::MAX,
        ensures
            table_functions(*final(self)) == table_functions(*old(self)).push(function),
            id.0 == table_functions(*old(self)).len(),
    {
        self.inner.push(function)
    }

    /// `IdVec`'s `Index`: the function at the identifier's place. `IdVec` panics where
    /// the table has no such place.
    #[verifier::external_body]
    pub(crate) fn get(&self, id: FunctionId) -> (function: &Function<'input>)
        requires
            id.0 < table_functions(*self).len(),
        ensures
            *function == table_functions(*self)[id.0 as int],
    {
        &self.inner[id]
    }
}

/// A resolved program: its top-level items in source order, and the table of the
/// functions that the items name.
#[derive(Debug)]
pub struct Program<'input> {
    pub things: Vec<TopLevel<'input>>,
    pub functions: FunctionTable<'input>,
}

/// A top-level item: the identifier of a function, or a comment on its own.
#[derive(Debug)]
pub enum TopLevel<'input> {
    Function(FunctionId),
    Comment(Comment<'input>),
}

/// A comment: its text.
#[derive(Debug)]
pub struct Comment<'input> {
    pub text: &'input str,
}

// function -------------------------------------------------------------------

/// A function: its definition, its body, and examples of what it returns.
#[derive(Debug)]
pub struct Function<'input> {
    pub definition: FunctionDefinition<'input>,
    pub body: Box<Expression<'input>>,
    pub tests: Vec<Test<'input>>,
}

/// The head of a function: its name and its parameters in order.
#[derive(Debug)]
pub struct FunctionDefinition<'input> {
    pub name: &'input str,
    pub params: Vec<Parameter<'input>>,
}

/// A parameter of a function.
#[derive(Debug)]
pub struct Parameter<'input> {
    pub name: &'input str,
}

/// An example of a function's behaviour: an input and the output expected for it.
#[derive(Debug)]
pub struct Test<'input> {
    pub input: Box<Expression<'input>>,
    pub output: Box<Expression<'input>>,
}

// statements -----------------------------------------------------------------

/// A statement. `Error` stands where the parser found none.
#[derive(Debug)]
pub enum Statement<'input> {
    Let(Let<'input>),
    Expression(Box<Expression<'input>>),
    Return(Box<Expression<'input>>),
    Comment(Comment<'input>),
    Error,
}

/// A binding of a name to a value.
#[derive(Debug)]
pub struct Let<'input> {
    pub name: &'input str,
    pub value: Box<Expression<'input>>,
}

/// A call: the callee's name and the arguments in order.
#[derive(Debug)]
pub struct FunctionCall<'input> {
    pub name: &'input str,
    pub args: Vec<Box<Expression<'input>>>,
}

// expressions ----------------------------------------------------------------

/// An expression. `Expression` keeps an explicit grouping; `Error` stands where the
/// parser found no expression.
#[derive(Debug)]
pub enum Expression<'input> {
    Expression(Box<Expression<'input>>),
    Block(Vec<Statement<'input>>),
    FunctionCall(FunctionCall<'input>),
    Variable(Variable<'input>),
    Number(i32),
    String(ASTString<'input>),
    If(If<'input>),
    Op(Box<Expression<'input>>, Opcode, Box<Expression<'input>>),
    ExpressionComment((Box<Expression<'input>>, Comment<'input>)),
    Error,
}

/// A reference to a name.
#[derive(Debug)]
pub struct Variable<'input> {
    pub name: &'input str,
}

/// A string literal, as it was written.
#[derive(Debug)]
pub struct ASTString<'input> {
    pub value: &'input str,
}

/// A conditional. A chain of conditionals nests in `else_body`.
#[derive(Debug)]
pub struct If<'input> {
    pub condition: Box<Expression<'input>>,
    pub body: Box<Expression<'input>>,
    pub else_body: Option<Box<Expression<'input>>>,
}

// math -----------------------------------------------------------------------

/// An arithmetic expression over numerals.
#[derive(Debug)]
pub enum ExprSymbol<'input> {
    NumSymbol(&'input str),
    Op(Box<ExprSymbol<'input>>, Opcode, Box<ExprSymbol<'input>>),
    Error,
}

/// A binary arithmetic operator.
#[derive(Copy, Clone, Debug)]
pub enum Opcode {
    Mul,
    Div,
    Add,
    Sub,
}

// models ---------------------------------------------------------------------

/// The model of an expression.
pub open spec fn expression_model(e: Expression) -> ExpressionModel
    decreases e,
{
    match e {
        Expression::Expression(inner) => ExpressionModel::Expression(
            Box::new(expression_model(*inner)),
        ),
        Expression::Block(statements) => ExpressionModel::Block(statements_model(statements@)),
        Expression::FunctionCall(call) => ExpressionModel::FunctionCall(call_model(call)),
        Expression::Variable(variable) => ExpressionModel::Variable(variable.name@),
        Expression::Number(value) => ExpressionModel::Number(value),
        Expression::String(string) => ExpressionModel::String(string.value@),
        Expression::If(conditional) => ExpressionModel::If(if_model(conditional)),
        Expression::Op(lhs, op, rhs) => ExpressionModel::Op(
            Box::new(expression_model(*lhs)),
            op@,
            Box::new(expression_model(*rhs)),
        ),
        Expression::ExpressionComment((inner, comment)) => ExpressionModel::ExpressionComment(
            Box::new(expression_model(*inner)),
            comment.text@,
        ),
        Expression::Error => ExpressionModel::Error,
    }
}

/// The models of statements, in order.
pub open spec fn statements_model(statements: Seq<Statement>) -> Seq<StatementModel>
    decreases statements,
{
    Seq::new(
        statements.len(),
        |i: int|
            if 0 <= i < statements.len() {
                statement_model(statements[i])
            } else {
                StatementModel::Error
            },
    )
}

/// The model of a statement.
pub open spec fn statement_model(s: Statement) -> StatementModel
    decreases s,
{
    match s {
        Statement::Let(binding) => StatementModel::Let(let_model(binding)),
        Statement::Expression(e) => StatementModel::Expression(expression_model(*e)),
        Statement::Return(e) => StatementModel::Return(expression_model(*e)),
        Statement::Comment(comment) => StatementModel::Comment(comment.text@),
        Statement::Error => StatementModel::Error,
    }
}

/// The model of a binding.
pub open spec fn let_model(binding: Let) -> LetModel
    decreases binding,
{
    LetModel { name: binding.name@, value: expression_model(*binding.value) }
}

/// The model of a call.
pub open spec fn call_model(call: FunctionCall) -> CallModel
    decreases call,
{
    CallModel { name: call.name@, args: arguments_model(call.args@) }
}

/// The models of arguments, in order.
pub open spec fn arguments_model(args: Seq<Box<Expression>>) -> Seq<ExpressionModel>
    decreases args,
{
    Seq::new(
        args.len(),
        |i: int|
            if 0 <= i < args.len() {
                expression_model(*args[i])
            } else {
                ExpressionModel::Error
            },
    )
}

/// The model of a conditional.
pub open spec fn if_model(conditional: If) -> IfModel
    decreases conditional,
{
    IfModel {
        condition: Box::new(expression_model(*conditional.condition)),
        body: Box::new(expression_model(*conditional.body)),
        else_body: match conditional.else_body {
            Some(else_body) => Some(Box::new(expression_model(*else_body))),
            None => None,
        },
    }
}

/// The models of examples, in order.
pub open spec fn tests_model(tests: Seq<Test>) -> Seq<TestModel> {
    Seq::new(tests.len(), |i: int| tests[i]@)
}

/// The names of parameters, in order.
pub open spec fn parameters_model(params: Seq<Parameter>) -> Seq<Seq<char>> {
    Seq::new(params.len(), |i: int| params[i]@)
}

/// The models of top-level items, in order.
pub open spec fn items_model(things: Seq<TopLevel>) -> Seq<ItemModel> {
    Seq::new(things.len(), |i: int| things[i]@)
}

/// The models of the functions of a table, in order.
pub open spec fn functions_model(functions: Seq<Function>) -> Seq<FunctionModel> {
    Seq::new(functions.len(), |i: int| functions[i]@)
}

impl View for Opcode {
    type V = Operator;

    open spec fn view(&self) -> Operator {
        match self {
            Opcode::Mul => Operator::Mul,
            Opcode::Div => Operator::Div,
            Opcode::Add => Operator::Add,
            Opcode::Sub => Operator::Sub,
        }
    }
}

impl<'input> View for Comment<'input> {
    type V = Seq<char>;

    open spec fn view(&self) -> Seq<char> {
        self.text@
    }
}

impl<'input> View for Parameter<'input> {
    type V = Seq<char>;

    open spec fn view(&self) -> Seq<char> {
        self.name@
    }
}

impl<'input> View for Variable<'input> {
    type V = Seq<char>;

    open spec fn view(&self) -> Seq<char> {
        self.name@
    }
}

impl<'input> View for ASTString<'input> {
    type V = Seq<char>;

    open spec fn view(&self) -> Seq<char> {
        self.value@
    }
}

impl<'input> View for Expression<'input> {
    type V = ExpressionModel;

    open spec fn view(&self) -> ExpressionModel {
        expression_model(*self)
    }
}

impl<'input> View for Statement<'input> {
    type V = StatementModel;

    open spec fn view(&self) -> StatementModel {
        statement_model(*self)
    }
}

impl<'input> View for Let<'input> {
    type V = LetModel;

    open spec fn view(&self) -> LetModel {
        let_model(*self)
    }
}

impl<'input> View for FunctionCall<'input> {
    type V = CallModel;

    open spec fn view(&self) -> CallModel {
        call_model(*self)
    }
}

impl<'input> View for If<'input> {
    type V = IfModel;

    open spec fn view(&self) -> IfModel {
        if_model(*self)
    }
}

impl<'input> View for Test<'input> {
    type V = TestModel;

    open spec fn view(&self) -> TestModel {
        TestModel { input: self.input@, output: self.output@ }
    }
}

impl<'input> View for FunctionDefinition<'input> {
    type V = DefinitionModel;

    open spec fn view(&self) -> DefinitionModel {
        DefinitionModel { name: self.name@, params: parameters_model(self.params@) }
    }
}

impl<'input> View for Function<'input> {
    type V = FunctionModel;

    open spec fn view(&self) -> FunctionModel {
        FunctionModel {
            definition: self.definition@,
            body: self.body@,
            tests: tests_model(self.tests@),
        }
    }
}

impl<'input> View for TopLevel<'input> {
    type V = ItemModel;

    open spec fn view(&self) -> ItemModel {
        match self {
            TopLevel::Function(id) => ItemModel::Function(id.0 as nat),
            TopLevel::Comment(comment) => ItemModel::Comment(comment@),
        }
    }
}

impl<'input> View for Program<'input> {
    type V = ProgramModel;

    open spec fn view(&self) -> ProgramModel {
        ProgramModel {
            things: items_model(self.things@),
            functions: functions_model(table_functions(self.functions)),
        }
    }
}

impl<'input> Format for Program<'input> {
    open spec fn rendered(&self, level: nat, marks: Marks) -> Seq<char> {
        render_program(self@, level, marks)
    }

    open spec fn depth(&self) -> nat {
        program_depth(self@)
    }

    open spec fn well_formed(&self) -> bool {
        program_resolves(self@)
    }

    open spec fn whole(&self) -> bool {
        program_whole(self@)
    }

    proof fn whole_ignores_marks(&self, level: nat, first: Marks, second: Marks) {
        law_whole_program_ignores_marks(self@, level, first, second);
    }

    fn format_with(&self, fmt: &mut Formatter, marks: &ErrorMarks) {
        let ghost things = items_model(self.things@);
        let ghost functions = functions_model(table_functions(self.functions));
        let mut i: usize = 0;
        while i < self.things.len()
            invariant
                i <= self.things.len(),
                things == items_model(self.things@),
                functions == functions_model(table_functions(self.functions)),
                program_resolves(self@),
                fmt.indent_level == old(fmt).indent_level,
                fmt.indent_level + program_depth(self@) <= usize::MAX,
                fmt.string@ == old(fmt).string@ + render_items(
                    things.take(i as int),
                    functions,
                    fmt.indent_level as nat,
                    marks@,
                ),
            decreases self.things.len() - i,
        {
            proof {
                assert(things.take(i + 1).drop_last() =~= things.take(i as int));
                lemma_items_depth(things, functions, i as int);
            }
            match &self.things[i] {
                TopLevel::Function(func) => self.functions.get(*func).format_with(fmt, marks),
                TopLevel::Comment(comment) => comment.format_with(fmt, marks),
            }
            i += 1;
        }
        proof {
            assert(things.take(i as int) =~= things);
        }
    }

    fn format(&self, fmt: &mut Formatter) {
        let marks = ErrorMarks::painted();
        self.format_with(fmt, &marks);
        proof {
            if self.whole() {
                self.whole_ignores_marks(old(fmt).indent_level as nat, marks@, Marks::plain());
            }
        }
    }
}

impl<'input> Comment<'input> {
    /// A comment with the given text.
    pub fn new(text: &'input str) -> (comment: Self)
        ensures
            comment == (Comment { text }),
    {
        Self { text }
    }
}

impl<'input> Format for Comment<'input> {
    open spec fn rendered(&self, level: nat, marks: Marks) -> Seq<char> {
        render_comment(self@, level)
    }

    open spec fn depth(&self) -> nat {
        0
    }

    open spec fn well_formed(&self) -> bool {
        true
    }

    open spec fn whole(&self) -> bool {
        true
    }

    proof fn whole_ignores_marks(&self, level: nat, first: Marks, second: Marks) {
    }

    fn format_with(&self, fmt: &mut Formatter, marks: &ErrorMarks) {
        fmt.push_str_indented("// ");
        fmt.push_str(self.text);
        fmt.push_str("\n");
    }

    fn format(&self, fmt: &mut Formatter) {
        let marks = ErrorMarks::painted();
        self.format_with(fmt, &marks);
        proof {
            if self.whole() {
                self.whole_ignores_marks(old(fmt).indent_level as nat, marks@, Marks::plain());
            }
        }
    }
}

impl<'input> Function<'input> {
    /// A function that has only a name: no parameters, no examples, and a placeholder
    /// for its body.
    pub fn comment(content: &'input str) -> (function: Self)
        ensures
            function@ == (FunctionModel {
                definition: DefinitionModel { name: content@, params: Seq::empty() },
                body: ExpressionModel::Error,
                tests: Seq::empty(),
            }),
    {
        let function = Self {
            definition: FunctionDefinition { name: content, params: Vec::new() },
            body: Box::new(Expression::Error),
            tests: Vec::new(),
        };
        assert(function@.definition.params =~= Seq::empty());
        assert(function@.tests =~= Seq::empty());
        function
    }
}

impl<'input> Format for Function<'input> {
    open spec fn rendered(&self, level: nat, marks: Marks) -> Seq<char> {
        render_function(self@, level, marks)
    }

    open spec fn depth(&self) -> nat {
        function_depth(self@)
    }

    open spec fn well_formed(&self) -> bool {
        true
    }

    open spec fn whole(&self) -> bool {
        function_whole(self@)
    }

    proof fn whole_ignores_marks(&self, level: nat, first: Marks, second: Marks) {
        law_whole_function_ignores_marks(self@, level, first, second);
    }

    fn format_with(&self, fmt: &mut Formatter, marks: &ErrorMarks) {
        self.definition.format_with(fmt, marks);
        self.body.format_with(fmt, marks);
        if !self.tests.is_empty() {
            fmt.push_str_indented("[\n");
            fmt.indent();
            let ghost head = fmt.string@;
            let ghost tests = tests_model(self.tests@);
            let mut i: usize = 0;
            while i < self.tests.len()
                invariant
                    i <= self.tests.len(),
                    tests == tests_model(self.tests@),
                    fmt.indent_level == old(fmt).indent_level + 1,
                    fmt.indent_level + tests_depth(tests) <= usize::MAX,
                    fmt.string@ == head + render_tests(
                        tests.take(i as int),
                        fmt.indent_level as nat,
                        marks@,
                    ),
                decreases self.tests.len() - i,
            {
                proof {
                    assert(tests.take(i + 1).drop_last() =~= tests.take(i as int));
                    lemma_tests_depth(tests, i as int);
                }
                proof {
                    reveal_strlit("");
                }
                fmt.push_str_indented("");
                self.tests[i].format_with(fmt, marks);
                fmt.push_str(",\n");
                i += 1;
            }
            proof {
                assert(tests.take(i as int) =~= tests);
            }
            fmt.unindent();
            fmt.push_str_indented("]");
        }
        fmt.push_str("\n\n");
    }

    fn format(&self, fmt: &mut Formatter) {
        let marks = ErrorMarks::painted();
        self.format_with(fmt, &marks);
        proof {
            if self.whole() {
                self.whole_ignores_marks(old(fmt).indent_level as nat, marks@, Marks::plain());
            }
        }
    }
}

impl<'input> Format for FunctionDefinition<'input> {
    open spec fn rendered(&self, level: nat, marks: Marks) -> Seq<char> {
        render_definition(self@, level)
    }

    open spec fn depth(&self) -> nat {
        0
    }

    open spec fn well_formed(&self) -> bool {
        true
    }

    open spec fn whole(&self) -> bool {
        true
    }

    proof fn whole_ignores_marks(&self, level: nat, first: Marks, second: Marks) {
    }

    fn format_with(&self, fmt: &mut Formatter, marks: &ErrorMarks) {
        if str_eq(self.name, "hatch") {
            fmt.push_str_indented("\u{1F95A} \u{1F423}(");
        } else {
            fmt.push_str_indented("\u{1F95A} ");
            fmt.push_str(self.name);
            fmt.push_str("(");
        }
        let ghost params = parameters_model(self.params@);
        let mut joined = String::new();
        let mut i: usize = 0;
        while i < self.params.len()
            invariant
                i <= self.params.len(),
                params == parameters_model(self.params@),
                joined@ == join(params.take(i as int), ", "@),
            decreases self.params.len() - i,
        {
            proof {
                assert(params.take(i + 1).drop_last() =~= params.take(i as int));
            }
            if i > 0 {
                joined.append(", ");
            }
            let name = self.params[i].to_string();
            joined.append(name.as_str());
            i += 1;
        }
        proof {
            assert(params.take(i as int) =~= params);
        }
        fmt.push_string(joined);
        fmt.push_str(") ");
    }

    fn format(&self, fmt: &mut Formatter) {
        let marks = ErrorMarks::painted();
        self.format_with(fmt, &marks);
        proof {
            if self.whole() {
                self.whole_ignores_marks(old(fmt).indent_level as nat, marks@, Marks::plain());
            }
        }
    }
}

impl<'input> Parameter<'input> {
    /// The parameter's name.
    pub fn to_string(&self) -> (name: String)
        ensures
            name@ == self@,
    {
        String::from_str(self.name)
    }
}

impl<'input> Format for Test<'input> {
    open spec fn rendered(&self, level: nat, marks: Marks) -> Seq<char> {
        render_test(self@, level, marks)
    }

    open spec fn depth(&self) -> nat {
        test_depth(self@)
    }

    open spec fn well_formed(&self) -> bool {
        true
    }

    open spec fn whole(&self) -> bool {
        test_whole(self@)
    }

    proof fn whole_ignores_marks(&self, level: nat, first: Marks, second: Marks) {
        lemma_whole_test_ignores_marks(self@, level, first, second);
    }

    fn format_with(&self, fmt: &mut Formatter, marks: &ErrorMarks) {
        self.input.format_with(fmt, marks);
        fmt.push_str(" = ");
        self.output.format_with(fmt, marks);
    }

    fn format(&self, fmt: &mut Formatter) {
        let marks = ErrorMarks::painted();
        self.format_with(fmt, &marks);
        proof {
            if self.whole() {
                self.whole_ignores_marks(old(fmt).indent_level as nat, marks@, Marks::plain());
            }
        }
    }
}

impl<'input> Format for Statement<'input> {
    open spec fn rendered(&self, level: nat, marks: Marks) -> Seq<char> {
        render_statement(self@, level, marks)
    }

    open spec fn depth(&self) -> nat {
        statement_depth(self@)
    }

    open spec fn well_formed(&self) -> bool {
        true
    }

    open spec fn whole(&self) -> bool {
        statement_whole(self@)
    }

    proof fn whole_ignores_marks(&self, level: nat, first: Marks, second: Marks) {
        lemma_whole_statement_ignores_marks(self@, level, first, second);
    }

    fn format_with(&self, fmt: &mut Formatter, marks: &ErrorMarks)
        decreases self,
    {
        match self {
            Statement::Let(let_) => let_.format_with(fmt, marks),
            Statement::Expression(expr) => {
                proof {
                    reveal_strlit("");
                }
                fmt.push_str_indented("");
                expr.format_with(fmt, marks);
                fmt.push_str(";\n");
            },
            Statement::Return(expr) => {
                fmt.push_str_indented("\u{1F414} ");
                expr.format_with(fmt, marks);
                fmt.push_str(";\n");
            },
            Statement::Comment(comment) => comment.format_with(fmt, marks),
            Statement::Error => fmt.push_str_indented(marks.statement.as_str()),
        }
    }

    fn format(&self, fmt: &mut Formatter) {
        let marks = ErrorMarks::painted();
        self.format_with(fmt, &marks);
        proof {
            if self.whole() {
                self.whole_ignores_marks(old(fmt).indent_level as nat, marks@, Marks::plain());
            }
        }
    }
}

impl<'input> Format for Let<'input> {
    open spec fn rendered(&self, level: nat, marks: Marks) -> Seq<char> {
        render_let(self@, level, marks)
    }

    open spec fn depth(&self) -> nat {
        expression_depth(self@.value)
    }

    open spec fn well_formed(&self) -> bool {
        true
    }

    open spec fn whole(&self) -> bool {
        expression_whole(self@.value)
    }

    proof fn whole_ignores_marks(&self, level: nat, first: Marks, second: Marks) {
        lemma_whole_let_ignores_marks(self@, level, first, second);
    }

    fn format_with(&self, fmt: &mut Formatter, marks: &ErrorMarks)
        decreases self,
    {
        fmt.push_str_indented("let ");
        fmt.push_str(self.name);
        fmt.push_str(" = ");
        self.value.format_with(fmt, marks);
        fmt.push_str(";\n");
    }

    fn format(&self, fmt: &mut Formatter) {
        let marks = ErrorMarks::painted();
        self.format_with(fmt, &marks);
        proof {
            if self.whole() {
                self.whole_ignores_marks(old(fmt).indent_level as nat, marks@, Marks::plain());
            }
        }
    }
}

impl<'input> Format for FunctionCall<'input> {
    open spec fn rendered(&self, level: nat, marks: Marks) -> Seq<char> {
        render_call(self@, level, marks)
    }

    open spec fn depth(&self) -> nat {
        arguments_depth(self@.args)
    }

    open spec fn well_formed(&self) -> bool {
        true
    }

    open spec fn whole(&self) -> bool {
        arguments_whole(self@.args)
    }

    proof fn whole_ignores_marks(&self, level: nat, first: Marks, second: Marks) {
        lemma_whole_call_ignores_marks(self@, level, first, second);
    }

    fn format_with(&self, fmt: &mut Formatter, marks: &ErrorMarks)
        decreases self,
    {
        fmt.push_str(self.name);
        fmt.push_str("(");
        let ghost head = fmt.string@;
        let ghost args = arguments_model(self.args@);
        let mut i: usize = 0;
        while i < self.args.len()
            invariant
                i <= self.args.len(),
                args == arguments_model(self.args@),
                fmt.indent_level == old(fmt).indent_level,
                fmt.indent_level + arguments_depth(args) <= usize::MAX,
                fmt.string@ == head + render_arguments(
                    args.take(i as int),
                    fmt.indent_level as nat,
                    marks@,
                ),
            decreases self.args.len() - i,
        {
            proof {
                assert(args.take(i + 1).drop_last() =~= args.take(i as int));
                lemma_arguments_depth(args, i as int);
            }
            if i > 0 {
                fmt.push_str(", ");
            }
            self.args[i].format_with(fmt, marks);
            i += 1;
        }
        proof {
            assert(args.take(i as int) =~= args);
        }
        fmt.push_str(")");
    }

    fn format(&self, fmt: &mut Formatter) {
        let marks = ErrorMarks::painted();
        self.format_with(fmt, &marks);
        proof {
            if self.whole() {
                self.whole_ignores_marks(old(fmt).indent_level as nat, marks@, Marks::plain());
            }
        }
    }
}

impl<'input> Format for Expression<'input> {
    open spec fn rendered(&self, level: nat, marks: Marks) -> Seq<char> {
        render_expression(self@, level, marks)
    }

    open spec fn depth(&self) -> nat {
        expression_depth(self@)
    }

    open spec fn well_formed(&self) -> bool {
        true
    }

    open spec fn whole(&self) -> bool {
        expression_whole(self@)
    }

    proof fn whole_ignores_marks(&self, level: nat, first: Marks, second: Marks) {
        law_whole_expression_ignores_marks(self@, level, first, second);
    }

    fn format_with(&self, fmt: &mut Formatter, marks: &ErrorMarks)
        decreases self,
    {
        match self {
            Expression::Expression(expr) => expr.format_with(fmt, marks),
            Expression::FunctionCall(func) => func.format_with(fmt, marks),
            Expression::Block(block) => {
                fmt.push_str("{\n");
                fmt.indent();
                let ghost head = fmt.string@;
                let ghost statements = statements_model(block@);
                let mut i: usize = 0;
                while i < block.len()
                    invariant
                        i <= block.len(),
                        decreases_to!(self => *block),
                        statements == statements_model(block@),
                        fmt.indent_level == old(fmt).indent_level + 1,
                        fmt.indent_level + statements_depth(statements) <= usize::MAX,
                        fmt.string@ == head + render_statements(
                            statements.take(i as int),
                            fmt.indent_level as nat,
                            marks@,
                        ),
                    decreases block.len() - i,
                {
                    proof {
                        assert(statements.take(i + 1).drop_last() =~= statements.take(i as int));
                        lemma_statements_depth(statements, i as int);
                    }
                    block[i].format_with(fmt, marks);
                    i += 1;
                }
                proof {
                    assert(statements.take(i as int) =~= statements);
                }
                fmt.unindent();
                fmt.push_str_indented("}");
            },
            Expression::Variable(var) => fmt.push_string(var.to_string()),
            Expression::Number(num) => fmt.push_string(i32_to_string(*num)),
            Expression::String(str) => fmt.push_string(str.to_string()),
            Expression::Op(lhs, op, rhs) => {
                fmt.push_str("(");
                lhs.format_with(fmt, marks);
                fmt.push_str(" ");
                fmt.push_string(op.to_string());
                fmt.push_str(" ");
                rhs.format_with(fmt, marks);
                fmt.push_str(")");
            },
            Expression::If(if_) => if_.format_with(fmt, marks),
            Expression::ExpressionComment((expr, comment)) => {
                expr.format_with(fmt, marks);
                comment.format_with(fmt, marks);
            },
            Expression::Error => fmt.push_str(marks.expression.as_str()),
        }
    }

    fn format(&self, fmt: &mut Formatter) {
        let marks = ErrorMarks::painted();
        self.format_with(fmt, &marks);
        proof {
            if self.whole() {
                self.whole_ignores_marks(old(fmt).indent_level as nat, marks@, Marks::plain());
            }
        }
    }
}

impl<'input> Variable<'input> {
    /// The variable's name.
    pub fn to_string(&self) -> (name: String)
        ensures
            name@ == self@,
    {
        String::from_str(self.name)
    }
}

impl<'input> ASTString<'input> {
    /// The literal's text.
    pub fn to_string(&self) -> (value: String)
        ensures
            value@ == self@,
    {
        String::from_str(self.value)
    }
}

impl<'input> Format for If<'input> {
    open spec fn rendered(&self, level: nat, marks: Marks) -> Seq<char> {
        render_if(self@, level, marks)
    }

    open spec fn depth(&self) -> nat {
        if_depth(self@)
    }

    open spec fn well_formed(&self) -> bool {
        true
    }

    open spec fn whole(&self) -> bool {
        if_whole(self@)
    }

    proof fn whole_ignores_marks(&self, level: nat, first: Marks, second: Marks) {
        lemma_whole_if_ignores_marks(self@, level, first, second);
    }

    fn format_with(&self, fmt: &mut Formatter, marks: &ErrorMarks)
        decreases self,
    {
        fmt.push_str("if ");
        self.condition.format_with(fmt, marks);
        fmt.push_str(" ");
        self.body.format_with(fmt, marks);
        if let Some(else_) = &self.else_body {
            else_.format_with(fmt, marks);
        }
    }

    fn format(&self, fmt: &mut Formatter) {
        let marks = ErrorMarks::painted();
        self.format_with(fmt, &marks);
        proof {
            if self.whole() {
                self.whole_ignores_marks(old(fmt).indent_level as nat, marks@, Marks::plain());
            }
        }
    }
}

impl Opcode {
    /// The operator's symbol.
    pub fn to_string(&self) -> (symbol: String)
        ensures
            symbol@ == operator_symbol(self@),
    {
        match self {
            Opcode::Mul => String::from_str("*"),
            Opcode::Div => String::from_str("/"),
            Opcode::Add => String::from_str("+"),
            Opcode::Sub => String::from_str("-"),
        }
    }
}

/// The text of a symbol: a number as it was written, an operation between round
/// brackets, and `mark` for a placeholder.
pub open spec fn symbol_text(symbol: ExprSymbol, mark: Seq<char>) -> Seq<char>
    decreases symbol,
{
    match symbol {
        ExprSymbol::NumSymbol(n) => n@,
        ExprSymbol::Op(l, op, r) => "("@ + symbol_text(*l, mark) + " "@ + operator_symbol(op@)
            + " "@ + symbol_text(*r, mark) + ")"@,
        ExprSymbol::Error => mark,
    }
}

impl<'input> ExprSymbol<'input> {
    /// Appends the symbol's text, placeholders drawn as `marks` says of expressions.
    pub fn write_with(&self, out: &mut String, marks: &ErrorMarks)
        ensures
            final(out)@ == old(out)@ + symbol_text(*self, marks@.expression),
        decreases self,
    {
        match self {
            ExprSymbol::NumSymbol(n) => out.append(n),
            ExprSymbol::Op(l, op, r) => {
                out.append("(");
                l.write_with(out, marks);
                out.append(" ");
                out.append(op.to_string().as_str());
                out.append(" ");
                r.write_with(out, marks);
                out.append(")");
            },
            ExprSymbol::Error => out.append(marks.expression.as_str()),
        }
    }

    /// The symbol's text, placeholders drawn as `marks` says of expressions.
    pub fn to_string_with(&self, marks: &ErrorMarks) -> (text: String)
        ensures
            text@ == symbol_text(*self, marks@.expression),
    {
        let mut text = String::new();
        self.write_with(&mut text, marks);
        text
    }

    /// The symbol's text, placeholders painted red as far as the terminal's settings
    /// allow.
    pub fn to_string(&self) -> (text: String)
        ensures
            exists|marks: Marks| marks.painted() && text@ == symbol_text(*self, marks.expression),
    {
        let marks = ErrorMarks::painted();
        self.to_string_with(&marks)
    }
}

// depth ----------------------------------------------------------------------

/// The larger of two numbers.
fn max_of(a: usize, b: usize) -> (larger: usize)
    ensures
        larger == if a >= b {
            a
        } else {
            b
        },
{
    if a >= b {
        a
    } else {
        b
    }
}

/// One more, as far as a `usize` can count.
fn one_more(n: usize) -> (more: usize)
    ensures
        more == if n < usize::MAX {
            n + 1
        } else {
            n as int
        },
{
    if n < usize::MAX {
        n + 1
    } else {
        n
    }
}

impl<'input> Expression<'input> {
    /// How many levels of indentation the expression opens inside itself, as far as a
    /// `usize` can count them.
    pub fn nesting(&self) -> (levels: usize)
        ensures
            levels == saturated(expression_depth(self@)),
        decreases self,
    {
        match self {
            Expression::Expression(expr) => expr.nesting(),
            Expression::FunctionCall(func) => func.nesting(),
            Expression::Block(block) => {
                let ghost statements = statements_model(block@);
                let mut deepest: usize = 0;
                let mut i: usize = 0;
                while i < block.len()
                    invariant
                        i <= block.len(),
                        decreases_to!(self => *block),
                        statements == statements_model(block@),
                        deepest == saturated(statements_depth(statements.take(i as int))),
                    decreases block.len() - i,
                {
                    proof {
                        assert(statements.take(i + 1).drop_last() =~= statements.take(i as int));
                    }
                    deepest = max_of(deepest, block[i].nesting());
                    i += 1;
                }
                proof {
                    assert(statements.take(i as int) =~= statements);
                }
                one_more(deepest)
            },
            Expression::Variable(_) => 0,
            Expression::Number(_) => 0,
            Expression::String(_) => 0,
            Expression::Op(lhs, _, rhs) => max_of(lhs.nesting(), rhs.nesting()),
            Expression::If(if_) => if_.nesting(),
            Expression::ExpressionComment((expr, _)) => expr.nesting(),
            Expression::Error => 0,
        }
    }
}

impl<'input> FunctionCall<'input> {
    /// The depth of the deepest argument, as far as a `usize` can count it.
    pub fn nesting(&self) -> (levels: usize)
        ensures
            levels == saturated(arguments_depth(self@.args)),
        decreases self,
    {
        let ghost args = arguments_model(self.args@);
        let mut deepest: usize = 0;
        let mut i: usize = 0;
        while i < self.args.len()
            invariant
                i <= self.args.len(),
                args == arguments_model(self.args@),
                deepest == saturated(arguments_depth(args.take(i as int))),
            decreases self.args.len() - i,
        {
            proof {
                assert(args.take(i + 1).drop_last() =~= args.take(i as int));
            }
            deepest = max_of(deepest, self.args[i].nesting());
            i += 1;
        }
        proof {
            assert(args.take(i as int) =~= args);
        }
        deepest
    }
}

impl<'input> If<'input> {
    /// The depth of the deepest part, as far as a `usize` can count it.
    pub fn nesting(&self) -> (levels: usize)
        ensures
            levels == saturated(if_depth(self@)),
        decreases self,
    {
        let parts = max_of(self.condition.nesting(), self.body.nesting());
        match &self.else_body {
            Some(else_) => max_of(parts, else_.nesting()),
            None => parts,
        }
    }
}

impl<'input> Statement<'input> {
    /// How many levels of indentation the statement opens inside itself, as far as a
    /// `usize` can count them.
    pub fn nesting(&self) -> (levels: usize)
        ensures
            levels == saturated(statement_depth(self@)),
        decreases self,
    {
        match self {
            Statement::Let(let_) => let_.value.nesting(),
            Statement::Expression(expr) => expr.nesting(),
            Statement::Return(expr) => expr.nesting(),
            Statement::Comment(_) => 0,
            Statement::Error => 0,
        }
    }
}

impl<'input> Test<'input> {
    /// The depth of the deeper side, as far as a `usize` can count it.
    pub fn nesting(&self) -> (levels: usize)
        ensures
            levels == saturated(test_depth(self@)),
    {
        max_of(self.input.nesting(), self.output.nesting())
    }
}

impl<'input> Function<'input> {
    /// How many levels of indentation the function opens, as far as a `usize` can
    /// count them.
    pub fn nesting(&self) -> (levels: usize)
        ensures
            levels == saturated(function_depth(self@)),
    {
        let ghost tests = tests_model(self.tests@);
        let mut deepest: usize = 0;
        let mut i: usize = 0;
        while i < self.tests.len()
            invariant
                i <= self.tests.len(),
                tests == tests_model(self.tests@),
                deepest == saturated(tests_depth(tests.take(i as int))),
            decreases self.tests.len() - i,
        {
            proof {
                assert(tests.take(i + 1).drop_last() =~= tests.take(i as int));
            }
            deepest = max_of(deepest, self.tests[i].nesting());
            i += 1;
        }
        proof {
            assert(tests.take(i as int) =~= tests);
        }
        if self.tests.is_empty() {
            self.body.nesting()
        } else {
            max_of(self.body.nesting(), one_more(deepest))
        }
    }
}

impl<'input> Program<'input> {
    /// The function that an identifier names, if the table holds one under it.
    pub fn function(&self, id: FunctionId) -> (function: Option<&Function<'input>>)
        ensures
            function is Some <==> id.0 < table_functions(self.functions).len(),
            function matches Some(found) ==> *found == table_functions(self.functions)[id.0
                as int],
    {
        if id.0 < self.functions.len() {
            Some(self.functions.get(id))
        } else {
            None
        }
    }

    /// Whether every item names a function that the table holds.
    pub fn resolves(&self) -> (holds: bool)
        ensures
            holds == self.well_formed(),
    {
        let count = self.functions.len();
        let ghost things = items_model(self.things@);
        let mut i: usize = 0;
        while i < self.things.len()
            invariant
                i <= self.things.len(),
                things == items_model(self.things@),
                count == self@.functions.len(),
                items_resolve(things.take(i as int), count as nat),
            decreases self.things.len() - i,
        {
            match &self.things[i] {
                TopLevel::Function(id) => {
                    if id.0 >= count {
                        proof {
                            assert(things[i as int] == ItemModel::Function(id.0 as nat));
                        }
                        return false;
                    }
                },
                TopLevel::Comment(_) => {},
            }
            i += 1;
        }
        proof {
            assert(things.take(i as int) =~= things);
        }
        true
    }

    /// How many levels of indentation the program opens, as far as a `usize` can count
    /// them.
    pub fn nesting(&self) -> (levels: usize)
        requires
            self.well_formed(),
        ensures
            levels == saturated(self.depth()),
    {
        let ghost things = items_model(self.things@);
        let ghost functions = functions_model(table_functions(self.functions));
        let mut deepest: usize = 0;
        let mut i: usize = 0;
        while i < self.things.len()
            invariant
                i <= self.things.len(),
                things == items_model(self.things@),
                functions == functions_model(table_functions(self.functions)),
                program_resolves(self@),
                deepest == saturated(items_depth(things.take(i as int), functions)),
            decreases self.things.len() - i,
        {
            proof {
                assert(things.take(i + 1).drop_last() =~= things.take(i as int));
                assert(things[i as int] == self.things[i as int]@);
            }
            match &self.things[i] {
                TopLevel::Function(id) => {
                    deepest = max_of(deepest, self.functions.get(*id).nesting());
                },
                TopLevel::Comment(_) => {},
            }
            i += 1;
        }
        proof {
            assert(things.take(i as int) =~= things);
        }
        deepest
    }
}

// resolution -----------------------------------------------------------------

impl<'input> From<base_ast::Program<'input>> for Program<'input> {
    /// Resolves a program: every function goes into the table and leaves its
    /// identifier where it stood; comments stay where they are.
    fn from(ast: base_ast::Program<'input>) -> (program: Self)
        ensures
            program@ == resolve(ast@),
            program.well_formed(),
    {
        let ghost raw = ast@;
        let ghost source = ast.things@;
        let ghost count = ast.things.len();
        let mut functions = FunctionTable::new();
        let mut things: Vec<TopLevel<'input>> = Vec::new();
        proof {
            assert(items_model(things@) =~= Seq::empty());
            assert(functions_model(table_functions(functions)) =~= Seq::empty());
        }
        for thing in iter: ast.things.into_iter()
            invariant
                iter.seq() == source,
                source.len() == count,
                raw == base_ast::top_levels_model(source),
                table_functions(functions).len() <= iter.index(),
                (ProgramModel {
                    things: items_model(things@),
                    functions: functions_model(table_functions(functions)),
                }) == resolve(raw.take(iter.index() as int)),
                program_resolves(resolve(raw.take(iter.index() as int))),
        {
            let ghost done = iter.index() as int;
            let ghost before = resolve(raw.take(done));
            proof {
                assert(raw.take(done + 1).drop_last() =~= raw.take(done));
            }
            match thing {
                base_ast::TopLevel::Function(func) => {
                    let id = functions.push(Function::from(func));
                    things.push(TopLevel::Function(id));
                    proof {
                        assert(items_model(things@) =~= before.things.push(
                            ItemModel::Function(before.functions.len()),
                        ));
                        assert(functions_model(table_functions(functions))
                            =~= before.functions.push(func@));
                    }
                },
                base_ast::TopLevel::Comment(comment) => {
                    things.push(TopLevel::Comment(Comment::from(comment)));
                    proof {
                        assert(items_model(things@) =~= before.things.push(
                            ItemModel::Comment(comment@),
                        ));
                    }
                },
            }
        }
        proof {
            assert(raw.take(source.len() as int) =~= raw);
        }
        Program { things, functions }
    }
}

impl<'input> FromSpecImpl<base_ast::Program<'input>> for Program<'input> {
    open spec fn obeys_from_spec() -> bool {
        false
    }

    open spec fn from_spec(ast: base_ast::Program<'input>) -> Self {
        arbitrary()
    }
}

impl<'input> From<base_ast::Comment<'input>> for Comment<'input> {
    fn from(ast: base_ast::Comment<'input>) -> (comment: Self)
        ensures
            comment@ == ast@,
    {
        Self::new(ast.text)
    }
}

impl<'input> FromSpecImpl<base_ast::Comment<'input>> for Comment<'input> {
    open spec fn obeys_from_spec() -> bool {
        true
    }

    open spec fn from_spec(ast: base_ast::Comment<'input>) -> Self {
        Comment { text: ast.text }
    }
}

impl<'input> From<base_ast::Function<'input>> for Function<'input> {
    fn from(ast: base_ast::Function<'input>) -> (function: Self)
        ensures
            function@ == ast@,
    {
        let ghost source = ast.tests@;
        let definition = FunctionDefinition::from(ast.definition);
        let body = Box::new(Expression::from(ast.body));
        let mut tests: Vec<Test<'input>> = Vec::new();
        for test in iter: ast.tests.into_iter()
            invariant
                iter.seq() == source,
                tests@.len() == iter.index(),
                forall|j: int| 0 <= j < tests@.len() ==> (#[trigger] tests@[j])@ == source[j]@,
        {
            tests.push(Test::from(test));
        }
        let function = Self { definition, body, tests };
        proof {
            assert(function@.tests =~= ast@.tests);
        }
        function
    }
}

impl<'input> FromSpecImpl<base_ast::Function<'input>> for Function<'input> {
    open spec fn obeys_from_spec() -> bool {
        false
    }

    open spec fn from_spec(ast: base_ast::Function<'input>) -> Self {
        arbitrary()
    }
}

impl<'input> From<base_ast::FunctionDefinition<'input>> for FunctionDefinition<'input> {
    fn from(ast: base_ast::FunctionDefinition<'input>) -> (definition: Self)
        ensures
            definition@ == ast@,
    {
        let ghost source = ast.params@;
        let mut params: Vec<Parameter<'input>> = Vec::new();
        for param in iter: ast.params.into_iter()
            invariant
                iter.seq() == source,
                params@.len() == iter.index(),
                forall|j: int| 0 <= j < params@.len() ==> (#[trigger] params@[j])@ == source[j]@,
        {
            params.push(Parameter::from(param));
        }
        let definition = Self { name: ast.name, params };
        proof {
            assert(definition@.params =~= ast@.params);
        }
        definition
    }
}

impl<'input> FromSpecImpl<base_ast::FunctionDefinition<'input>> for FunctionDefinition<'input> {
    open spec fn obeys_from_spec() -> bool {
        false
    }

    open spec fn from_spec(ast: base_ast::FunctionDefinition<'input>) -> Self {
        arbitrary()
    }
}

impl<'input> From<base_ast::Parameter<'input>> for Parameter<'input> {
    fn from(ast: base_ast::Parameter<'input>) -> (parameter: Self)
        ensures
            parameter@ == ast@,
    {
        Self { name: ast.name }
    }
}

impl<'input> FromSpecImpl<base_ast::Parameter<'input>> for Parameter<'input> {
    open spec fn obeys_from_spec() -> bool {
        true
    }

    open spec fn from_spec(ast: base_ast::Parameter<'input>) -> Self {
        Parameter { name: ast.name }
    }
}

impl<'input> From<base_ast::Test<'input>> for Test<'input> {
    fn from(ast: base_ast::Test<'input>) -> (test: Self)
        ensures
            test@ == ast@,
    {
        Self {
            input: Box::new(Expression::from(ast.input)),
            output: Box::new(Expression::from(ast.output)),
        }
    }
}

impl<'input> FromSpecImpl<base_ast::Test<'input>> for Test<'input> {
    open spec fn obeys_from_spec() -> bool {
        false
    }

    open spec fn from_spec(ast: base_ast::Test<'input>) -> Self {
        arbitrary()
    }
}

impl<'input> From<base_ast::Statement<'input>> for Statement<'input> {
    fn from(ast: base_ast::Statement<'input>) -> (statement: Self)
        ensures
            statement@ == ast@,
        decreases ast,
    {
        match ast {
            base_ast::Statement::Let(let_) => Self::Let(Let::from(let_)),
            base_ast::Statement::Expression(expr) => Self::Expression(
                Box::new(Expression::from(expr)),
            ),
            base_ast::Statement::Return(expr) => Self::Return(Box::new(Expression::from(expr))),
            base_ast::Statement::Comment(comment) => Self::Comment(Comment::from(comment)),
            base_ast::Statement::Error => Self::Error,
        }
    }
}

impl<'input> FromSpecImpl<base_ast::Statement<'input>> for Statement<'input> {
    open spec fn obeys_from_spec() -> bool {
        false
    }

    open spec fn from_spec(ast: base_ast::Statement<'input>) -> Self {
        arbitrary()
    }
}

impl<'input> From<base_ast::Let<'input>> for Let<'input> {
    fn from(ast: base_ast::Let<'input>) -> (binding: Self)
        ensures
            binding@ == ast@,
        decreases ast,
    {
        Self { name: ast.name, value: Box::new(Expression::from(ast.value)) }
    }
}

impl<'input> FromSpecImpl<base_ast::Let<'input>> for Let<'input> {
    open spec fn obeys_from_spec() -> bool {
        false
    }

    open spec fn from_spec(ast: base_ast::Let<'input>) -> Self {
        arbitrary()
    }
}

impl<'input> From<base_ast::FunctionCall<'input>> for FunctionCall<'input> {
    fn from(ast: base_ast::FunctionCall<'input>) -> (call: Self)
        ensures
            call@ == ast@,
        decreases ast,
    {
        let ghost source = ast.args@;
        let mut args: Vec<Box<Expression<'input>>> = Vec::new();
        for arg in iter: ast.args.into_iter()
            invariant
                iter.seq() == source,
                decreases_to!(ast => source),
                args@.len() == iter.index(),
                forall|j: int|
                    0 <= j < args@.len() ==> expression_model(*#[trigger] args@[j])
                        == base_ast::expression_model(*source[j]),
        {
            args.push(Box::new(Expression::from(arg)));
        }
        let call = Self { name: ast.name, args };
        proof {
            assert(call@.args =~= ast@.args);
        }
        call
    }
}

impl<'input> FromSpecImpl<base_ast::FunctionCall<'input>> for FunctionCall<'input> {
    open spec fn obeys_from_spec() -> bool {
        false
    }

    open spec fn from_spec(ast: base_ast::FunctionCall<'input>) -> Self {
        arbitrary()
    }
}

impl<'input> From<base_ast::Expression<'input>> for Expression<'input> {
    fn from(ast: base_ast::Expression<'input>) -> (expression: Self)
        ensures
            expression@ == ast@,
        decreases ast, 0nat,
    {
        match ast {
            base_ast::Expression::Expression(expr) => Self::Expression(
                Box::new(Expression::from(expr)),
            ),
            base_ast::Expression::Block(block) => {
                let ghost source = block@;
                let mut statements: Vec<Statement<'input>> = Vec::new();
                for stmt in iter: block.into_iter()
                    invariant
                        iter.seq() == source,
                        decreases_to!(ast => source),
                        statements@.len() == iter.index(),
                        forall|j: int|
                            0 <= j < statements@.len() ==> (#[trigger] statements@[j])@
                                == source[j]@,
                {
                    statements.push(Statement::from(stmt));
                }
                let expression = Self::Block(statements);
                proof {
                    assert(statements_model(statements@) =~= base_ast::statements_model(source));
                }
                expression
            },
            base_ast::Expression::FunctionCall(func) => Self::FunctionCall(
                FunctionCall::from(func),
            ),
            base_ast::Expression::Variable(var) => Self::Variable(Variable::from(var)),
            base_ast::Expression::Number(num) => Self::Number(num),
            base_ast::Expression::String(str) => Self::String(ASTString::from(str)),
            base_ast::Expression::If(if_) => Self::If(If::from(if_)),
            base_ast::Expression::Op(lhs, op, rhs) => {
                Self::Op(
                    Box::new(Expression::from(lhs)),
                    Opcode::from(op),
                    Box::new(Expression::from(rhs)),
                )
            },
            base_ast::Expression::ExpressionComment((expr, comment)) => {
                Self::ExpressionComment((Box::new(Expression::from(expr)), Comment::from(comment)))
            },
            base_ast::Expression::Error => Self::Error,
        }
    }
}

impl<'input> FromSpecImpl<base_ast::Expression<'input>> for Expression<'input> {
    open spec fn obeys_from_spec() -> bool {
        false
    }

    open spec fn from_spec(ast: base_ast::Expression<'input>) -> Self {
        arbitrary()
    }
}

impl<'input> From<Box<base_ast::Expression<'input>>> for Expression<'input> {
    fn from(ast: Box<base_ast::Expression<'input>>) -> (expression: Self)
        ensures
            expression@ == ast@,
        decreases ast, 1nat,
    {
        Self::from(*ast)
    }
}

impl<'input> FromSpecImpl<Box<base_ast::Expression<'input>>> for Expression<'input> {
    open spec fn obeys_from_spec() -> bool {
        false
    }

    open spec fn from_spec(ast: Box<base_ast::Expression<'input>>) -> Self {
        arbitrary()
    }
}

impl<'input> From<base_ast::Variable<'input>> for Variable<'input> {
    fn from(ast: base_ast::Variable<'input>) -> (variable: Self)
        ensures
            variable@ == ast@,
    {
        Self { name: ast.name }
    }
}

impl<'input> FromSpecImpl<base_ast::Variable<'input>> for Variable<'input> {
    open spec fn obeys_from_spec() -> bool {
        true
    }

    open spec fn from_spec(ast: base_ast::Variable<'input>) -> Self {
        Variable { name: ast.name }
    }
}

impl<'input> From<base_ast::ASTString<'input>> for ASTString<'input> {
    fn from(ast: base_ast::ASTString<'input>) -> (string: Self)
        ensures
            string@ == ast@,
    {
        Self { value: ast.value }
    }
}

impl<'input> FromSpecImpl<base_ast::ASTString<'input>> for ASTString<'input> {
    open spec fn obeys_from_spec() -> bool {
        true
    }

    open spec fn from_spec(ast: base_ast::ASTString<'input>) -> Self {
        ASTString { value: ast.value }
    }
}

impl<'input> From<base_ast::If<'input>> for If<'input> {
    fn from(ast: base_ast::If<'input>) -> (conditional: Self)
        ensures
            conditional@ == ast@,
        decreases ast,
    {
        Self {
            condition: Box::new(Expression::from(ast.condition)),
            body: Box::new(Expression::from(ast.body)),
            else_body: match ast.else_body {
                Some(else_) => Some(Box::new(Expression::from(else_))),
                None => None,
            },
        }
    }
}

impl<'input> FromSpecImpl<base_ast::If<'input>> for If<'input> {
    open spec fn obeys_from_spec() -> bool {
        false
    }

    open spec fn from_spec(ast: base_ast::If<'input>) -> Self {
        arbitrary()
    }
}

impl<'input> From<base_ast::ExprSymbol<'input>> for ExprSymbol<'input> {
    fn from(ast: base_ast::ExprSymbol<'input>) -> (symbol: Self)
        ensures
            forall|mark: Seq<char>|
                #[trigger] symbol_text(symbol, mark) == base_ast::symbol_text(ast, mark),
        decreases ast,
    {
        match ast {
            base_ast::ExprSymbol::NumSymbol(num) => Self::NumSymbol(num),
            base_ast::ExprSymbol::Op(lhs, op, rhs) => {
                let left = ExprSymbol::from(*lhs);
                let right = ExprSymbol::from(*rhs);
                let symbol = Self::Op(Box::new(left), Opcode::from(op), Box::new(right));
                assert forall|mark: Seq<char>| #[trigger]
                    symbol_text(symbol, mark) == base_ast::symbol_text(ast, mark) by {
                    assert(symbol_text(left, mark) == base_ast::symbol_text(*lhs, mark));
                    assert(symbol_text(right, mark) == base_ast::symbol_text(*rhs, mark));
                }
                symbol
            },
            base_ast::ExprSymbol::Error => Self::Error,
        }
    }
}

impl<'input> FromSpecImpl<base_ast::ExprSymbol<'input>> for ExprSymbol<'input> {
    open spec fn obeys_from_spec() -> bool {
        false
    }

    open spec fn from_spec(ast: base_ast::ExprSymbol<'input>) -> Self {
        arbitrary()
    }
}

impl From<base_ast::Opcode> for Opcode {
    fn from(ast: base_ast::Opcode) -> (op: Self)
        ensures
            op@ == ast@,
    {
        match ast {
            base_ast::Opcode::Mul => Self::Mul,
            base_ast::Opcode::Div => Self::Div,
            base_ast::Opcode::Add => Self::Add,
            base_ast::Opcode::Sub => Self::Sub,
        }
    }
}

impl FromSpecImpl<base_ast::Opcode> for Opcode {
    open spec fn obeys_from_spec() -> bool {
        true
    }

    open spec fn from_spec(ast: base_ast::Opcode) -> Self {
        match ast {
            base_ast::Opcode::Mul => Opcode::Mul,
            base_ast::Opcode::Div => Opcode::Div,
            base_ast::Opcode::Add => Opcode::Add,
            base_ast::Opcode::Sub => Opcode::Sub,
        }
    }
}

} // verus!
