//! The mathematical shape of a syntax tree.
//!
//! Both the tree that a parser hands over and the tree that the resolver produces are
//! viewed as these types: names and literals are character sequences, lists are
//! sequences, and nothing remembers where in memory a node lives. Contracts of the
//! executable types are stated over them.

use vstd::prelude::*;

verus! {

/// A binary arithmetic operator.
pub enum Operator {
    Mul,
    Div,
    Add,
    Sub,
}

/// An expression.
pub enum ExpressionModel {
    /// An explicit grouping point around another expression.
    Expression(Box<ExpressionModel>),
    /// A nested scope: statements in order.
    Block(Seq<StatementModel>),
    FunctionCall(CallModel),
    /// A reference to a name.
    Variable(Seq<char>),
    Number(i32),
    /// The text of a string literal.
    String(Seq<char>),
    If(IfModel),
    Op(Box<ExpressionModel>, Operator, Box<ExpressionModel>),
    /// An expression with the text of the comment that trails it.
    ExpressionComment(Box<ExpressionModel>, Seq<char>),
    /// Stands where no expression could be parsed.
    Error,
}

/// A call: the callee's name and the arguments in order.
pub struct CallModel {
    pub name: Seq<char>,
    pub args: Seq<ExpressionModel>,
}

/// A conditional; a chain of conditionals nests in `else_body`.
pub struct IfModel {
    pub condition: Box<ExpressionModel>,
    pub body: Box<ExpressionModel>,
    pub else_body: Option<Box<ExpressionModel>>,
}

/// A binding of a name to a value.
pub struct LetModel {
    pub name: Seq<char>,
    pub value: ExpressionModel,
}

/// A statement.
pub enum StatementModel {
    Let(LetModel),
    Expression(ExpressionModel),
    Return(ExpressionModel),
    /// The text of a comment on a line of its own.
    Comment(Seq<char>),
    /// Stands where no statement could be parsed.
    Error,
}

/// An example of a function's behaviour: an input and the output expected for it.
pub struct TestModel {
    pub input: ExpressionModel,
    pub output: ExpressionModel,
}

/// A function's name and the names of its parameters in order.
pub struct DefinitionModel {
    pub name: Seq<char>,
    pub params: Seq<Seq<char>>,
}

/// A function: definition, body and examples.
pub struct FunctionModel {
    pub definition: DefinitionModel,
    pub body: ExpressionModel,
    pub tests: Seq<TestModel>,
}

/// A top-level item that holds its function.
pub enum TopLevelModel {
    Function(FunctionModel),
    Comment(Seq<char>),
}

/// A top-level item that names its function by its place in a table.
pub enum ItemModel {
    Function(nat),
    Comment(Seq<char>),
}

/// A resolved program: the items in source order, and the functions they name.
pub struct ProgramModel {
    pub things: Seq<ItemModel>,
    pub functions: Seq<FunctionModel>,
}

} // verus!
