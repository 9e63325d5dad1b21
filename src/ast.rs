use vstd::prelude::*;

verus! {

/// An expression. Only the placeholder exists so far: the right-hand sides
/// of statements are not parsed yet.
#[derive(Clone, Copy, Debug, PartialEq, Eq, Structural)]
pub enum Expression {
    EmptyExpression,
}

/// A name bound or used in a program.
#[derive(Clone, Debug)]
pub struct Identifier {
    pub value: String,
}

/// A top-level statement.
#[derive(Clone, Debug)]
pub enum Statement {
    /// Stands where a statement failed to parse.
    EmptyStatement,
    LetStatement(Identifier, Expression),
    ReturnStatement(Expression),
}

/// What a statement is, with the identifier given by its characters.
pub enum StatementModel {
    Empty,
    Let(Seq<char>, Expression),
    Return(Expression),
}

impl View for Statement {
    type V = StatementModel;

    open spec fn view(&self) -> StatementModel {
        match self {
            Statement::EmptyStatement => StatementModel::Empty,
            Statement::LetStatement(id, e) => StatementModel::Let(id.value@, *e),
            Statement::ReturnStatement(e) => StatementModel::Return(*e),
        }
    }
}

/// The statements of a source text, in the order in which they stand.
#[derive(Clone, Debug)]
pub struct Program {
    pub statements: Vec<Statement>,
}

impl View for Program {
    type V = Seq<StatementModel>;

    open spec fn view(&self) -> Seq<StatementModel> {
        self.statements@.map_values(|s: Statement| s@)
    }
}

} // verus!
